//! What can go wrong with a translation, and what is worth trying again.
use vstd::prelude::*;

use crate::compose::{concat3, decimal, decimal_text};
use crate::interval::Interval;
use crate::text::{
    contains, from_chars_between, has_occurrence, lowercase, to_chars, to_lowercase,
};

verus! {

#[derive(Clone, Copy, Debug, PartialEq, Eq, Structural)]
pub enum TranslationErrorKind {
    Timeout,
    Request,
    HttpStatus(u16),
    BackendBusy,
    ResponseParse,
    Empty,
    Rejected,
    OverallTimeout,
}

impl TranslationErrorKind {
    /// Whether another attempt may succeed.
    pub open spec fn transient(self) -> bool {
        match self {
            TranslationErrorKind::Timeout => true,
            TranslationErrorKind::Request => true,
            TranslationErrorKind::BackendBusy => true,
            TranslationErrorKind::HttpStatus(status) => status == 429 || status >= 500,
            _ => false,
        }
    }

    /// The name under which the error is logged.
    pub open spec fn label(self) -> Seq<char> {
        match self {
            TranslationErrorKind::Timeout => "timeout"@,
            TranslationErrorKind::Request => "backend_request_error"@,
            TranslationErrorKind::HttpStatus(_) => "backend_http_error"@,
            TranslationErrorKind::BackendBusy => "backend_busy"@,
            TranslationErrorKind::ResponseParse => "response_parse_error"@,
            TranslationErrorKind::Empty => "empty_response"@,
            TranslationErrorKind::Rejected => "validation_rejected"@,
            TranslationErrorKind::OverallTimeout => "overall_timeout"@,
        }
    }
}

#[derive(Clone, Debug, PartialEq, Eq)]
pub struct TranslationError {
    pub kind: TranslationErrorKind,
    pub detail: String,
}

pub struct TranslationErrorView {
    pub kind: TranslationErrorKind,
    pub detail: Seq<char>,
}

impl View for TranslationError {
    type V = TranslationErrorView;

    open spec fn view(&self) -> TranslationErrorView {
        TranslationErrorView { kind: self.kind, detail: self.detail@ }
    }
}

impl TranslationError {
    pub fn new(kind: TranslationErrorKind, detail: &str) -> (e: Self)
        ensures
            e@ == (TranslationErrorView { kind, detail: detail@ }),
    {
        TranslationError { kind, detail: detail.to_owned() }
    }

    /// Whether another attempt may succeed: timeouts, failed requests, a busy
    /// backend, rate limits and server errors.
    pub fn is_transient(&self) -> (r: bool)
        ensures
            r == self.kind.transient(),
    {
        match self.kind {
            TranslationErrorKind::Timeout
            | TranslationErrorKind::Request
            | TranslationErrorKind::BackendBusy => true,
            TranslationErrorKind::HttpStatus(status) => status == 429 || status >= 500,
            TranslationErrorKind::ResponseParse
            | TranslationErrorKind::Empty
            | TranslationErrorKind::Rejected
            | TranslationErrorKind::OverallTimeout => false,
        }
    }

    /// The name under which the error is logged.
    pub fn class(&self) -> (r: &'static str)
        ensures
            r@ == self.kind.label(),
    {
        match self.kind {
            TranslationErrorKind::Timeout => "timeout",
            TranslationErrorKind::Request => "backend_request_error",
            TranslationErrorKind::HttpStatus(_) => "backend_http_error",
            TranslationErrorKind::BackendBusy => "backend_busy",
            TranslationErrorKind::ResponseParse => "response_parse_error",
            TranslationErrorKind::Empty => "empty_response",
            TranslationErrorKind::Rejected => "validation_rejected",
            TranslationErrorKind::OverallTimeout => "overall_timeout",
        }
    }
}

/// The error of a request that did not finish within `request_timeout`.
pub fn request_timeout_error(request_timeout: Interval) -> (e: TranslationError)
    requires
        request_timeout.wf(),
    ensures
        e.kind == TranslationErrorKind::Timeout,
        e.detail@ == "request exceeded "@ + decimal(
            (request_timeout.nanos / 1_000_000_000) as nat,
        ) + "s"@,
{
    let secs = decimal_text(request_timeout.as_secs());
    let detail = concat3("request exceeded ", secs.as_str(), "s");
    TranslationError::new(TranslationErrorKind::Timeout, detail.as_str())
}

// ── Backend responses ───────────────────────────────────────────────────────
/// Whether a body, given in lower case, says that the server is busy.
pub fn lowered_body_is_busy(lowered: &str) -> (r: bool)
    ensures
        r == contains(lowered@, "server busy"@),
{
    let v = to_chars(lowered);
    let p = to_chars("server busy");
    has_occurrence(&v, &p)
}

/// Whether a backend body says, in any case, that the server is busy.
pub fn is_backend_busy_body(body: &str) -> (r: bool)
    ensures
        r == contains(lowercase(body@), "server busy"@),
{
    let lowered = to_lowercase(body);
    lowered_body_is_busy(lowered.as_str())
}

pub const EXCERPT_CHARS: usize = 240;

/// The first `EXCERPT_CHARS` characters of `body`, with dots where it is longer.
pub open spec fn excerpt(body: Seq<char>) -> Seq<char> {
    if body.len() > EXCERPT_CHARS {
        body.take(EXCERPT_CHARS as int) + "..."@
    } else {
        body
    }
}

/// The start of a response body, short enough for a log line.
pub fn response_excerpt(body: &str) -> (r: String)
    ensures
        r@ == excerpt(body@),
{
    let v = to_chars(body);
    if v.len() > EXCERPT_CHARS {
        let mut s = from_chars_between(&v, 0, EXCERPT_CHARS);
        s.append("...");
        s
    } else {
        body.to_owned()
    }
}

/// What kind of fault keeps a body from being read as a translation.
#[derive(Clone, Copy, Debug, PartialEq, Eq, Structural)]
pub enum ParseFault {
    /// It could not be read.
    Io,
    /// It is not JSON.
    Syntax,
    /// It is JSON of another shape.
    Data,
    /// It ends too early.
    Eof,
}

impl ParseFault {
    /// What the fault is called in an error.
    pub open spec fn name(self) -> Seq<char> {
        match self {
            ParseFault::Io => "read error"@,
            ParseFault::Syntax => "syntax error"@,
            ParseFault::Data => "unexpected data"@,
            ParseFault::Eof => "unexpected end"@,
        }
    }

    /// What the fault is called in an error.
    pub fn as_str(self) -> (r: &'static str)
        ensures
            r@ == self.name(),
    {
        match self {
            ParseFault::Io => "read error",
            ParseFault::Syntax => "syntax error",
            ParseFault::Data => "unexpected data",
            ParseFault::Eof => "unexpected end",
        }
    }
}

/// Where and why a body cannot be read as a translation. It holds no text, for
/// a parser's own words may quote the body.
#[derive(Clone, Copy, Debug, PartialEq, Eq, Structural)]
pub struct ParseProblem {
    pub fault: ParseFault,
    pub line: u64,
    pub column: u64,
}

/// A reply of the translation backend.
pub struct BackendReply {
    pub status: u16,
    pub body: String,
    /// The `translatedText` of the body, or what is wrong with the body. Read
    /// only where the status is a success.
    pub parsed: Result<String, ParseProblem>,
}

/// How a body of `size` bytes that cannot be read is reported.
pub open spec fn unparsed_detail(problem: ParseProblem, size: nat) -> Seq<char> {
    problem.fault.name() + " at line "@ + decimal(problem.line as nat) + " column "@ + decimal(
        problem.column as nat,
    ) + " (body_len="@ + decimal(size) + " bytes)"@
}

/// Whether `status` is an HTTP success.
pub open spec fn success_status(status: u16) -> bool {
    200 <= status < 300
}

/// What a backend reply amounts to, given whether its body says "busy".
pub open spec fn reply_outcome(reply: BackendReply, busy: bool) -> Result<
    Seq<char>,
    TranslationErrorView,
> {
    let busy_error = TranslationErrorView {
        kind: TranslationErrorKind::BackendBusy,
        detail: excerpt(reply.body@),
    };
    if !success_status(reply.status) {
        if busy {
            Err(busy_error)
        } else {
            Err(
                TranslationErrorView {
                    kind: TranslationErrorKind::HttpStatus(reply.status),
                    detail: excerpt(reply.body@),
                },
            )
        }
    } else {
        match reply.parsed {
            Ok(text) => Ok(text@),
            Err(problem) => if busy {
                Err(busy_error)
            } else {
                Err(
                    TranslationErrorView {
                        kind: TranslationErrorKind::ResponseParse,
                        detail: unparsed_detail(
                            problem,
                            vstd::utf8::encode_utf8(reply.body@).len(),
                        ),
                    },
                )
            },
        }
    }
}

/// The text or the error that a translation result stands for.
pub open spec fn outcome_view(r: Result<String, TranslationError>) -> Result<
    Seq<char>,
    TranslationErrorView,
> {
    match r {
        Ok(t) => Ok(t@),
        Err(e) => Err(e@),
    }
}

/// What a backend reply amounts to, given whether its body says "busy". A
/// success whose body does not parse is reported by the place and the kind of the
/// fault and the size of the body only: the body may hold translated text, which
/// never goes into an error.
pub fn classify_reply_given_busy(reply: BackendReply, busy: bool) -> (r: Result<
    String,
    TranslationError,
>)
    ensures
        outcome_view(r) == reply_outcome(reply, busy),
{
    if !(200 <= reply.status && reply.status < 300) {
        let kind = if busy {
            TranslationErrorKind::BackendBusy
        } else {
            TranslationErrorKind::HttpStatus(reply.status)
        };
        let detail = response_excerpt(reply.body.as_str());
        return Err(TranslationError::new(kind, detail.as_str()));
    }
    match reply.parsed {
        Ok(text) => Ok(text),
        Err(problem) => {
            if busy {
                let detail = response_excerpt(reply.body.as_str());
                Err(TranslationError::new(TranslationErrorKind::BackendBusy, detail.as_str()))
            } else {
                let mut detail: String = problem.fault.as_str().to_owned();
                detail.append(" at line ");
                let line = decimal_text(problem.line);
                detail.append(line.as_str());
                detail.append(" column ");
                let column = decimal_text(problem.column);
                detail.append(column.as_str());
                detail.append(" (body_len=");
                let n: usize = reply.body.as_str().as_bytes().len();
                let size = decimal_text(n as u64);
                detail.append(size.as_str());
                detail.append(" bytes)");
                Err(TranslationError { kind: TranslationErrorKind::ResponseParse, detail })
            }
        },
    }
}

/// The translated text of a backend reply, or why there is none.
pub fn classify_reply(reply: BackendReply) -> (r: Result<String, TranslationError>)
    ensures
        outcome_view(r) == reply_outcome(
            reply,
            contains(lowercase(reply.body@), "server busy"@),
        ),
{
    let busy: bool = is_backend_busy_body(reply.body.as_str());
    classify_reply_given_busy(reply, busy)
}

/// Translated text never reaches an error: where a reply counts as a success
/// but cannot be read, and does not say "busy", the error is made of the kind of
/// the fault, its line and column and the size of the body, which are no text.
/// So it is the same for every body that has these in common.
pub proof fn law_unparsed_body_stays_hidden(
    reply: BackendReply,
    problem: ParseProblem,
    other_status: u16,
    other_body: String,
)
    requires
        success_status(reply.status),
        reply.parsed == Err::<String, ParseProblem>(problem),
        success_status(other_status),
    ensures
        reply_outcome(reply, false) == Err::<Seq<char>, TranslationErrorView>(
            TranslationErrorView {
                kind: TranslationErrorKind::ResponseParse,
                detail: unparsed_detail(problem, vstd::utf8::encode_utf8(reply.body@).len()),
            },
        ),
        vstd::utf8::encode_utf8(other_body@).len() == vstd::utf8::encode_utf8(reply.body@).len()
            ==> reply_outcome(
            BackendReply { status: other_status, body: other_body, parsed: Err(problem) },
            false,
        ) == reply_outcome(reply, false),
{
}

/// Which errors of the backend are worth another attempt: timeouts, failed
/// requests, a busy backend, the rate limit and the server's own errors. A reply
/// that does not parse, is empty or is rejected stays what it is.
pub proof fn law_transient_errors(status: u16)
    ensures
        TranslationErrorKind::Timeout.transient(),
        TranslationErrorKind::Request.transient(),
        TranslationErrorKind::BackendBusy.transient(),
        TranslationErrorKind::HttpStatus(status).transient() <==> status == 429 || status >= 500,
        !TranslationErrorKind::ResponseParse.transient(),
        !TranslationErrorKind::Empty.transient(),
        !TranslationErrorKind::Rejected.transient(),
        !TranslationErrorKind::OverallTimeout.transient(),
{
}

/// An excerpt is the body itself up to 240 characters, and else its first 240
/// with three dots.
pub proof fn law_excerpt(body: Seq<char>)
    ensures
        body.len() <= 240 ==> excerpt(body) == body,
        body.len() > 240 ==> excerpt(body).len() == 243 && excerpt(body).take(240) == body.take(240)
            && excerpt(body).skip(240) == seq!['.', '.', '.'],
{
    reveal_strlit("...");
    if body.len() > 240 {
        let head = body.take(240);
        assert((head + "..."@).take(240) =~= head);
        assert((head + "..."@).skip(240) =~= seq!['.', '.', '.']);
    }
}

/// What a reply of the backend comes to. A success that parses is its text,
/// whatever the body says. Else a body that says "busy" is a busy backend, with
/// an excerpt of the body; another status is that status, with an excerpt too;
/// and a success that does not parse is told without its body.
pub proof fn law_replies(status: u16, body: String, text: String, problem: ParseProblem, busy: bool)
    ensures
        ({
            let success = 200 <= status < 300;
            let read = BackendReply { status, body, parsed: Ok(text) };
            let unread = BackendReply { status, body, parsed: Err(problem) };
            let error = |kind: TranslationErrorKind, detail: Seq<char>|
                Err::<Seq<char>, TranslationErrorView>(TranslationErrorView { kind, detail });
            let size = vstd::utf8::encode_utf8(body@).len();
            &&& success ==> reply_outcome(read, busy) == Ok::<Seq<char>, TranslationErrorView>(
                text@,
            )
            &&& !success && !busy ==> reply_outcome(read, busy) == error(
                TranslationErrorKind::HttpStatus(status),
                excerpt(body@),
            )
            &&& !success ==> reply_outcome(unread, busy) == reply_outcome(read, busy)
            &&& (!success || busy) && busy ==> reply_outcome(unread, busy) == error(
                TranslationErrorKind::BackendBusy,
                excerpt(body@),
            )
            &&& success && !busy ==> reply_outcome(unread, busy) == error(
                TranslationErrorKind::ResponseParse,
                unparsed_detail(problem, size),
            )
        }),
{
}

/// The names under which errors are logged.
pub proof fn law_error_classes(status: u16)
    ensures
        TranslationErrorKind::Timeout.label() == "timeout"@,
        TranslationErrorKind::Request.label() == "backend_request_error"@,
        TranslationErrorKind::HttpStatus(status).label() == "backend_http_error"@,
        TranslationErrorKind::BackendBusy.label() == "backend_busy"@,
        TranslationErrorKind::ResponseParse.label() == "response_parse_error"@,
        TranslationErrorKind::Empty.label() == "empty_response"@,
        TranslationErrorKind::Rejected.label() == "validation_rejected"@,
        TranslationErrorKind::OverallTimeout.label() == "overall_timeout"@,
{
}

/// A reply says the text or the error that it holds.
pub proof fn law_error_views(text: String, e: TranslationError)
    ensures
        outcome_view(Ok(text)) == Ok::<Seq<char>, TranslationErrorView>(text@),
        outcome_view(Err(e)) == Err::<Seq<char>, TranslationErrorView>(e@),
        e@.kind == e.kind,
        e@.detail == e.detail@,
{
}

/// A body that does not parse is told by what is wrong, where, and its size.
pub proof fn law_parse_problems(problem: ParseProblem, size: nat)
    ensures
        unparsed_detail(problem, size) == (match problem.fault {
            ParseFault::Io => "read error"@,
            ParseFault::Syntax => "syntax error"@,
            ParseFault::Data => "unexpected data"@,
            ParseFault::Eof => "unexpected end"@,
        }) + " at line "@ + decimal(problem.line as nat) + " column "@ + decimal(
            problem.column as nat,
        ) + " (body_len="@ + decimal(size) + " bytes)"@,
        success_status(200) && success_status(299) && !success_status(199) && !success_status(300),
{
}

} // verus!

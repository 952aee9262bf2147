use translate_bot::error::{
    classify_reply, classify_reply_given_busy, is_backend_busy_body, request_timeout_error,
    response_excerpt, BackendReply, ParseFault, ParseProblem, TranslationError,
    TranslationErrorKind,
};
use translate_bot::interval::Interval;

#[test]
fn error_classification_retries_only_transient_failures() {
    assert!(TranslationError::new(TranslationErrorKind::Timeout, "timeout").is_transient());
    assert!(TranslationError::new(TranslationErrorKind::Request, "connection").is_transient());
    assert!(TranslationError::new(TranslationErrorKind::BackendBusy, "busy").is_transient());
    assert!(TranslationError::new(TranslationErrorKind::HttpStatus(429), "rate").is_transient());
    assert!(TranslationError::new(TranslationErrorKind::HttpStatus(503), "down").is_transient());

    assert!(!TranslationError::new(TranslationErrorKind::HttpStatus(400), "bad").is_transient());
    assert!(!TranslationError::new(TranslationErrorKind::ResponseParse, "bad json").is_transient());
    assert!(!TranslationError::new(TranslationErrorKind::Rejected, "guard").is_transient());
}

#[test]
fn transience_at_the_edges() {
    assert!(TranslationError::new(TranslationErrorKind::HttpStatus(500), "").is_transient());
    assert!(!TranslationError::new(TranslationErrorKind::HttpStatus(499), "").is_transient());
    assert!(!TranslationError::new(TranslationErrorKind::HttpStatus(428), "").is_transient());
    assert!(!TranslationError::new(TranslationErrorKind::Empty, "").is_transient());
    assert!(!TranslationError::new(TranslationErrorKind::OverallTimeout, "").is_transient());
}

#[test]
fn error_classes() {
    let class = |kind| TranslationError::new(kind, "x").class();
    assert_eq!(class(TranslationErrorKind::Timeout), "timeout");
    assert_eq!(class(TranslationErrorKind::Request), "backend_request_error");
    assert_eq!(class(TranslationErrorKind::HttpStatus(404)), "backend_http_error");
    assert_eq!(class(TranslationErrorKind::BackendBusy), "backend_busy");
    assert_eq!(class(TranslationErrorKind::ResponseParse), "response_parse_error");
    assert_eq!(class(TranslationErrorKind::Empty), "empty_response");
    assert_eq!(class(TranslationErrorKind::Rejected), "validation_rejected");
    assert_eq!(class(TranslationErrorKind::OverallTimeout), "overall_timeout");
}

#[test]
fn per_request_timeout_is_classified() {
    let error = request_timeout_error(Interval::from_millis(5));
    assert_eq!(error.kind, TranslationErrorKind::Timeout);
    assert!(error.is_transient());
    assert_eq!(error.detail, "request exceeded 0s");
    assert_eq!(request_timeout_error(Interval::from_secs(60)).detail, "request exceeded 60s");
}

#[test]
fn busy_bodies_are_recognized_in_any_case() {
    assert!(is_backend_busy_body("Server busy, please try again later"));
    assert!(is_backend_busy_body("{\"error\":\"SERVER BUSY\"}"));
    assert!(!is_backend_busy_body("server is busy"));
}

#[test]
fn excerpts_count_characters() {
    assert_eq!(response_excerpt("short"), "short");
    let exact = "ä".repeat(240);
    assert_eq!(response_excerpt(&exact), exact);
    assert_eq!(response_excerpt(&"ä".repeat(241)), format!("{exact}..."));
}

fn problem(fault: ParseFault, line: u64, column: u64) -> ParseProblem {
    ParseProblem { fault, line, column }
}

const EOF: ParseProblem = ParseProblem { fault: ParseFault::Eof, line: 1, column: 9 };

fn reply(status: u16, body: &str, parsed: Result<&str, ParseProblem>) -> BackendReply {
    BackendReply { status, body: body.to_owned(), parsed: parsed.map(str::to_owned) }
}

#[test]
fn replies_are_classified() {
    assert_eq!(classify_reply(reply(200, "{}", Ok("hallo"))), Ok("hallo".to_owned()));
    // A success counts even where the text says busy.
    assert_eq!(
        classify_reply(reply(204, "server busy", Ok("server busy"))),
        Ok("server busy".to_owned())
    );
    assert_eq!(
        classify_reply(reply(503, "Server busy", Err(EOF))),
        Err(TranslationError::new(TranslationErrorKind::BackendBusy, "Server busy"))
    );
    assert_eq!(
        classify_reply(reply(404, "nope", Ok("ignored"))),
        Err(TranslationError::new(TranslationErrorKind::HttpStatus(404), "nope"))
    );
    assert_eq!(
        classify_reply(reply(300, "moved", Ok("ignored"))),
        Err(TranslationError::new(TranslationErrorKind::HttpStatus(300), "moved"))
    );
    assert_eq!(
        classify_reply(reply(200, "SERVER BUSY", Err(EOF))),
        Err(TranslationError::new(TranslationErrorKind::BackendBusy, "SERVER BUSY"))
    );
}

#[test]
fn an_unparsed_success_is_reported_without_its_text() {
    let error = classify_reply(reply(200, "geheim ä", Err(EOF))).unwrap_err();
    assert_eq!(error.kind, TranslationErrorKind::ResponseParse);
    assert_eq!(error.detail, "unexpected end at line 1 column 9 (body_len=9 bytes)");
    let other = classify_reply(reply(201, "xxxxxxxxx", Err(EOF))).unwrap_err();
    assert_eq!(error, other);

    let body = "\"Hallo Welt\"";
    let error =
        classify_reply(reply(200, body, Err(problem(ParseFault::Data, 1, 12)))).unwrap_err();
    assert_eq!(error.detail, "unexpected data at line 1 column 12 (body_len=12 bytes)");
    assert!(!error.detail.contains("Hallo Welt"));
}

#[test]
fn parse_faults_have_names() {
    let detail = |fault| {
        classify_reply_given_busy(reply(200, "b", Err(problem(fault, 3, 0))), false)
            .unwrap_err()
            .detail
    };
    assert_eq!(detail(ParseFault::Io), "read error at line 3 column 0 (body_len=1 bytes)");
    assert_eq!(detail(ParseFault::Syntax), "syntax error at line 3 column 0 (body_len=1 bytes)");
}

#[test]
fn busy_verdict_decides() {
    assert_eq!(
        classify_reply_given_busy(reply(500, "b", Err(EOF)), true).unwrap_err().kind,
        TranslationErrorKind::BackendBusy
    );
    assert_eq!(
        classify_reply_given_busy(reply(500, "b", Err(EOF)), false).unwrap_err().kind,
        TranslationErrorKind::HttpStatus(500)
    );
}

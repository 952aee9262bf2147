//! The translations of one event: a line per target language, and all of them
//! or none.
use vstd::prelude::*;

use vstd::hash_map::StringHashMap;

use crate::compose::{concat3, decimal, decimal_text, join, joined, law_joining};
use crate::error::{TranslationError, TranslationErrorKind, TranslationErrorView};
use crate::guard::{opt_str, rejection_of, translation_rejection_reason};
use crate::interval::Interval;
use crate::lang::{flag, flag_for_lang};
use crate::markup::{html_to_plain, inline_html, inlined, plain_text};
use crate::text::{texts, trim, trimmed};

verus! {

// ── Lines ───────────────────────────────────────────────────────────────────
/// The translation of an event into one language.
#[derive(Clone, Debug, PartialEq, Eq)]
pub struct TranslatedLine {
    pub target: String,
    pub plain: String,
    pub html: String,
}

pub struct TranslatedLineView {
    pub target: Seq<char>,
    pub plain: Seq<char>,
    pub html: Seq<char>,
}

impl View for TranslatedLine {
    type V = TranslatedLineView;

    open spec fn view(&self) -> TranslatedLineView {
        TranslatedLineView { target: self.target@, plain: self.plain@, html: self.html@ }
    }
}

pub open spec fn line_views(v: Seq<TranslatedLine>) -> Seq<TranslatedLineView> {
    Seq::new(v.len(), |i: int| v[i]@)
}

pub open spec fn line_result(r: Result<TranslatedLine, TranslationError>) -> Result<
    TranslatedLineView,
    TranslationErrorView,
> {
    match r {
        Ok(line) => Ok(line@),
        Err(e) => Err(e@),
    }
}

/// The line for a translation, given why the translation is rejected.
pub open spec fn line_outcome(
    target: Seq<char>,
    plain: Seq<char>,
    html: Seq<char>,
    rejected: Option<Seq<char>>,
) -> Result<TranslatedLineView, TranslationErrorView> {
    if plain.len() == 0 {
        Err(
            TranslationErrorView {
                kind: TranslationErrorKind::Empty,
                detail: "translation produced empty text"@,
            },
        )
    } else {
        match rejected {
            Some(reason) => Err(
                TranslationErrorView { kind: TranslationErrorKind::Rejected, detail: reason },
            ),
            None => Ok(TranslatedLineView { target, plain, html }),
        }
    }
}

/// The line for a translation, given why the translation is rejected.
pub fn line_given_rejection(
    target: &str,
    plain: String,
    html: String,
    rejected: Option<&'static str>,
) -> (r: Result<TranslatedLine, TranslationError>)
    ensures
        line_result(r) == line_outcome(target@, plain@, html@, opt_str(rejected)),
{
    if plain.as_str().is_empty() {
        return Err(
            TranslationError::new(TranslationErrorKind::Empty, "translation produced empty text"),
        );
    }
    if let Some(reason) = rejected {
        return Err(TranslationError::new(TranslationErrorKind::Rejected, reason));
    }
    Ok(TranslatedLine { target: target.to_owned(), plain, html })
}

/// The line for the backend's answer to a plain-text request.
pub fn build_text_line(target: &str, source_plain: &str, translated: String) -> (r: Result<
    TranslatedLine,
    TranslationError,
>)
    ensures
        line_result(r) == line_outcome(
            target@,
            trimmed(translated@),
            trimmed(translated@),
            rejection_of(source_plain@, trimmed(translated@)),
        ),
{
    let plain = trim(translated.as_str());
    let rejected = translation_rejection_reason(source_plain, plain.as_str());
    let html = plain.clone();
    line_given_rejection(target, plain, html, rejected)
}

/// The line for the backend's answer to an HTML request.
pub fn build_html_line(target: &str, source_plain: &str, translated_html: String) -> (r: Result<
    TranslatedLine,
    TranslationError,
>)
    ensures
        line_result(r) == line_outcome(
            target@,
            plain_text(translated_html@),
            inlined(translated_html@),
            rejection_of(source_plain@, plain_text(translated_html@)),
        ),
{
    let plain = html_to_plain(translated_html.as_str());
    let rejected = translation_rejection_reason(source_plain, plain.as_str());
    let html = inline_html(translated_html.as_str());
    line_given_rejection(target, plain, html, rejected)
}

// ── Bodies ──────────────────────────────────────────────────────────────────
/// The plain texts of `lines`, each behind its flag.
pub open spec fn flagged_plain(lines: Seq<TranslatedLineView>) -> Seq<Seq<char>> {
    Seq::new(lines.len(), |i: int| flag(lines[i].target) + " "@ + lines[i].plain)
}

/// The HTML texts of `lines`, each behind its flag.
pub open spec fn flagged_html(lines: Seq<TranslatedLineView>) -> Seq<Seq<char>> {
    Seq::new(lines.len(), |i: int| flag(lines[i].target) + " "@ + lines[i].html)
}

/// The plain body and the HTML body of a message that holds `lines`.
pub open spec fn bodies(lines: Seq<TranslatedLineView>) -> (Seq<char>, Seq<char>) {
    (joined(flagged_plain(lines), "\n"@), joined(flagged_html(lines), "<br>\n"@))
}

/// The plain body and the HTML body of a message that holds `lines`.
pub fn build_translation_bodies(lines: &Vec<TranslatedLine>) -> (r: (String, String))
    ensures
        (r.0@, r.1@) == bodies(line_views(lines@)),
{
    let ghost all = line_views(lines@);
    let mut plain: Vec<String> = Vec::new();
    let mut html: Vec<String> = Vec::new();
    let mut i: usize = 0;
    assert(texts(plain@) =~= flagged_plain(all).take(0));
    assert(texts(html@) =~= flagged_html(all).take(0));
    while i < lines.len()
        invariant
            i <= lines@.len(),
            all == line_views(lines@),
            texts(plain@) == flagged_plain(all).take(i as int),
            texts(html@) == flagged_html(all).take(i as int),
        decreases lines@.len() - i,
    {
        let ghost before_plain = texts(plain@);
        let ghost before_html = texts(html@);
        let mark = flag_for_lang(lines[i].target.as_str());
        plain.push(concat3(mark, " ", lines[i].plain.as_str()));
        html.push(concat3(mark, " ", lines[i].html.as_str()));
        assert(texts(plain@) =~= before_plain.push(flagged_plain(all)[i as int]));
        assert(texts(html@) =~= before_html.push(flagged_html(all)[i as int]));
        assert(flagged_plain(all).take(i + 1) =~= flagged_plain(all).take(i as int).push(
            flagged_plain(all)[i as int],
        ));
        assert(flagged_html(all).take(i + 1) =~= flagged_html(all).take(i as int).push(
            flagged_html(all)[i as int],
        ));
        i = i + 1;
    }
    assert(flagged_plain(all).take(i as int) =~= flagged_plain(all));
    assert(flagged_html(all).take(i as int) =~= flagged_html(all));
    (join(&plain, "\n"), join(&html, "<br>\n"))
}

// ── All or nothing ──────────────────────────────────────────────────────────
/// A target language that could not be translated into.
#[derive(Clone, Debug, PartialEq, Eq)]
pub struct TargetTranslationFailure {
    pub target: String,
    pub attempts: usize,
    pub error: TranslationError,
}

pub struct TargetFailureView {
    pub target: Seq<char>,
    pub attempts: nat,
    pub error: TranslationErrorView,
}

impl View for TargetTranslationFailure {
    type V = TargetFailureView;

    open spec fn view(&self) -> TargetFailureView {
        TargetFailureView {
            target: self.target@,
            attempts: self.attempts as nat,
            error: self.error@,
        }
    }
}

pub open spec fn failure_views(v: Seq<TargetTranslationFailure>) -> Seq<TargetFailureView> {
    Seq::new(v.len(), |i: int| v[i]@)
}

/// An event of which no translation is posted because some target failed.
#[derive(Clone, Debug, PartialEq, Eq)]
pub struct TranslationBatchFailure {
    pub source: String,
    pub context: &'static str,
    pub failed_targets: Vec<TargetTranslationFailure>,
    pub suppressed: bool,
}

pub struct BatchFailureView {
    pub source: Seq<char>,
    pub context: Seq<char>,
    pub failed_targets: Seq<TargetFailureView>,
    pub suppressed: bool,
}

impl View for TranslationBatchFailure {
    type V = BatchFailureView;

    open spec fn view(&self) -> BatchFailureView {
        BatchFailureView {
            source: self.source@,
            context: self.context@,
            failed_targets: failure_views(self.failed_targets@),
            suppressed: self.suppressed,
        }
    }
}

/// How many attempts were made for each target, by language.
pub struct Attempts {
    map: StringHashMap<usize>,
}

impl View for Attempts {
    type V = Map<Seq<char>, usize>;

    closed spec fn view(&self) -> Map<Seq<char>, usize> {
        self.map@
    }
}

impl Attempts {
    pub fn new() -> (r: Self)
        ensures
            r@ == Map::<Seq<char>, usize>::empty(),
    {
        Attempts { map: StringHashMap::new() }
    }

    /// Notes that the attempt number `attempts` for `target` has begun.
    pub fn insert(&mut self, target: String, attempts: usize)
        ensures
            final(self)@ == old(self)@.insert(target@, attempts),
    {
        self.map.insert(target, attempts);
    }

    /// The number of attempts that were begun for `target`.
    pub fn get(&self, target: &str) -> (n: usize)
        ensures
            n == attempts_for(self@, target@),
    {
        match self.map.get(target) {
            Some(n) => *n,
            None => 0,
        }
    }
}

pub open spec fn attempts_for(attempts: Map<Seq<char>, usize>, target: Seq<char>) -> usize {
    if attempts.contains_key(target) {
        attempts[target]
    } else {
        0
    }
}

/// The result for one target.
pub type TargetResult = Result<TranslatedLine, TargetTranslationFailure>;

/// The target that a result is about.
pub open spec fn result_target(result: TargetResult) -> Seq<char> {
    match result {
        Ok(line) => line@.target,
        Err(failure) => failure@.target,
    }
}

/// The line or the failure that a result stands for.
pub open spec fn result_view(result: TargetResult) -> Result<
    TranslatedLineView,
    TargetFailureView,
> {
    match result {
        Ok(line) => Ok(line@),
        Err(failure) => Err(failure@),
    }
}

/// The lines among `results`, in order.
pub open spec fn ok_lines(results: Seq<TargetResult>) -> Seq<TranslatedLineView>
    decreases results.len(),
{
    if results.len() == 0 {
        seq![]
    } else {
        let head = ok_lines(results.drop_last());
        match results.last() {
            Ok(line) => head.push(line@),
            Err(_) => head,
        }
    }
}

/// The failures among `results`, in order.
pub open spec fn failures(results: Seq<TargetResult>) -> Seq<TargetFailureView>
    decreases results.len(),
{
    if results.len() == 0 {
        seq![]
    } else {
        let head = failures(results.drop_last());
        match results.last() {
            Ok(_) => head,
            Err(failure) => head.push(failure@),
        }
    }
}

/// The failure of a target that the overall deadline cut off.
pub open spec fn deadline_failure(
    target: Seq<char>,
    attempts: Map<Seq<char>, usize>,
    overall_timeout: Interval,
) -> TargetFailureView {
    TargetFailureView {
        target,
        attempts: attempts_for(attempts, target) as nat,
        error: TranslationErrorView {
            kind: TranslationErrorKind::OverallTimeout,
            detail: "overall deadline exceeded after "@ + decimal(
                (overall_timeout.nanos / 1_000_000_000) as nat,
            ) + "s"@,
        },
    }
}

/// What becomes of a batch: all lines where every target succeeded, else no
/// line at all. `results` is `None` where the overall deadline has passed.
pub open spec fn batch_outcome(
    source: Seq<char>,
    target_langs: Seq<Seq<char>>,
    context: Seq<char>,
    overall_timeout: Interval,
    attempts: Map<Seq<char>, usize>,
    results: Option<Seq<TargetResult>>,
) -> Result<Seq<TranslatedLineView>, BatchFailureView> {
    match results {
        Some(rs) => if failures(rs).len() == 0 {
            Ok(ok_lines(rs))
        } else {
            Err(
                BatchFailureView {
                    source,
                    context,
                    failed_targets: failures(rs),
                    suppressed: true,
                },
            )
        },
        None => Err(
            BatchFailureView {
                source,
                context,
                failed_targets: Seq::new(
                    target_langs.len(),
                    |i: int| deadline_failure(target_langs[i], attempts, overall_timeout),
                ),
                suppressed: true,
            },
        ),
    }
}

pub open spec fn batch_view(r: Result<Vec<TranslatedLine>, TranslationBatchFailure>) -> Result<
    Seq<TranslatedLineView>,
    BatchFailureView,
> {
    match r {
        Ok(lines) => Ok(line_views(lines@)),
        Err(failure) => Err(failure@),
    }
}

/// The results of a finished batch, if it has finished.
pub open spec fn finished(results: Option<Vec<TargetResult>>) -> Option<Seq<TargetResult>> {
    match results {
        Some(v) => Some(v@),
        None => None,
    }
}

fn deadline_failures(
    target_langs: &Vec<String>,
    overall_timeout: Interval,
    attempts: &Attempts,
) -> (v: Vec<TargetTranslationFailure>)
    requires
        overall_timeout.wf(),
    ensures
        failure_views(v@) == Seq::new(
            target_langs@.len(),
            |i: int| deadline_failure(texts(target_langs@)[i], attempts@, overall_timeout),
        ),
{
    let mut v: Vec<TargetTranslationFailure> = Vec::new();
    let ghost all = Seq::new(
        target_langs@.len(),
        |i: int| deadline_failure(texts(target_langs@)[i], attempts@, overall_timeout),
    );
    let mut i: usize = 0;
    assert(failure_views(v@) =~= all.take(0));
    while i < target_langs.len()
        invariant
            i <= target_langs@.len(),
            overall_timeout.wf(),
            all == Seq::new(
                target_langs@.len(),
                |i: int| deadline_failure(texts(target_langs@)[i], attempts@, overall_timeout),
            ),
            failure_views(v@) == all.take(i as int),
        decreases target_langs@.len() - i,
    {
        let ghost before = failure_views(v@);
        let secs = decimal_text(overall_timeout.as_secs());
        let detail = concat3("overall deadline exceeded after ", secs.as_str(), "s");
        v.push(
            TargetTranslationFailure {
                target: target_langs[i].clone(),
                attempts: attempts.get(target_langs[i].as_str()),
                error: TranslationError::new(TranslationErrorKind::OverallTimeout, detail.as_str()),
            },
        );
        assert(failure_views(v@) =~= before.push(all[i as int]));
        assert(all.take(i + 1) =~= all.take(i as int).push(all[i as int]));
        i = i + 1;
    }
    assert(all.take(i as int) =~= all);
    v
}

/// Collects the results of a batch. All lines are returned where every target
/// succeeded; one failed target suppresses the whole batch, and so does the
/// overall deadline (`results` is then `None`).
pub fn collect_all_or_nothing(
    source: &str,
    target_langs: &Vec<String>,
    context: &'static str,
    overall_timeout: Interval,
    attempts: &Attempts,
    results: Option<Vec<TargetResult>>,
) -> (r: Result<Vec<TranslatedLine>, TranslationBatchFailure>)
    requires
        overall_timeout.wf(),
    ensures
        batch_view(r) == batch_outcome(
            source@,
            texts(target_langs@),
            context@,
            overall_timeout,
            attempts@,
            finished(results),
        ),
{
    match results {
        Some(all) => {
            let ghost rs = all@;
            let mut lines: Vec<TranslatedLine> = Vec::new();
            let mut failed: Vec<TargetTranslationFailure> = Vec::new();
            assert(line_views(lines@) =~= ok_lines(rs.take(0)));
            assert(failure_views(failed@) =~= failures(rs.take(0)));
            for result in it: all
                invariant
                    it.seq() == rs,
                    line_views(lines@) == ok_lines(rs.take(it.index())),
                    failure_views(failed@) == failures(rs.take(it.index())),
            {
                let ghost n = it.index();
                let ghost lines_before = line_views(lines@);
                let ghost failed_before = failure_views(failed@);
                assert(rs.take(n + 1).drop_last() =~= rs.take(n));
                match result {
                    Ok(line) => {
                        lines.push(line);
                        assert(line_views(lines@) =~= lines_before.push(line@));
                    },
                    Err(failure) => {
                        failed.push(failure);
                        assert(failure_views(failed@) =~= failed_before.push(failure@));
                    },
                }
            }
            assert(rs.take(rs.len() as int) =~= rs);
            if failed.len() == 0 {
                Ok(lines)
            } else {
                Err(
                    TranslationBatchFailure {
                        source: source.to_owned(),
                        context,
                        failed_targets: failed,
                        suppressed: true,
                    },
                )
            }
        },
        None => {
            let failed_targets = deadline_failures(target_langs, overall_timeout, attempts);
            proof {
                let all = texts(target_langs@);
                assert(failure_views(failed_targets@) =~= Seq::new(
                    all.len(),
                    |i: int| deadline_failure(all[i], attempts@, overall_timeout),
                ));
            }
            Err(
                TranslationBatchFailure {
                    source: source.to_owned(),
                    context,
                    failed_targets,
                    suppressed: true,
                },
            )
        },
    }
}

/// A batch yields lines only where every target has one: exactly as many lines
/// as results, in their order, and no failure. One failed target is enough for
/// the whole batch to be suppressed, and the failed targets are reported.
pub proof fn law_all_or_nothing(
    source: Seq<char>,
    target_langs: Seq<Seq<char>>,
    context: Seq<char>,
    overall_timeout: Interval,
    attempts: Map<Seq<char>, usize>,
    results: Option<Seq<TargetResult>>,
)
    ensures
        ({
            let outcome = batch_outcome(
                source,
                target_langs,
                context,
                overall_timeout,
                attempts,
                results,
            );
            &&& outcome is Ok <==> (results matches Some(rs) && forall|i: int|
                0 <= i < rs.len() ==> (#[trigger] rs[i]) is Ok)
            &&& outcome matches Ok(lines) ==> {
                &&& lines.len() == results->0.len()
                &&& forall|i: int|
                    0 <= i < lines.len() ==> #[trigger] lines[i] == (results->0)[i]->Ok_0@
            }
            &&& outcome matches Err(failure) ==> failure.suppressed && (failure.failed_targets.len()
                > 0 || (results is None && target_langs.len() == 0))
        }),
{
    if let Some(rs) = results {
        lemma_results_split(rs);
    }
}

/// Where each result is about its target, the lines of a batch are in the order
/// of the targets, one for each, and a failed batch names only targets of its
/// own.
pub proof fn law_lines_follow_the_targets(
    source: Seq<char>,
    target_langs: Seq<Seq<char>>,
    context: Seq<char>,
    overall_timeout: Interval,
    attempts: Map<Seq<char>, usize>,
    results: Seq<TargetResult>,
)
    requires
        results.len() == target_langs.len(),
        forall|i: int|
            0 <= i < results.len() ==> result_target(#[trigger] results[i]) == target_langs[i],
    ensures
        match batch_outcome(
            source,
            target_langs,
            context,
            overall_timeout,
            attempts,
            Some(results),
        ) {
            Ok(lines) => {
                &&& lines.len() == target_langs.len()
                &&& forall|i: int|
                    0 <= i < lines.len() ==> (#[trigger] lines[i]).target == target_langs[i]
            },
            Err(failure) => forall|i: int|
                0 <= i < failure.failed_targets.len() ==> target_langs.contains(
                    (#[trigger] failure.failed_targets[i]).target,
                ),
        },
{
    lemma_results_split(results);
    if failures(results).len() == 0 {
        assert forall|i: int| 0 <= i < ok_lines(results).len() implies (#[trigger] ok_lines(
            results,
        )[i]).target == target_langs[i] by {
            assert(results[i] is Ok);
            assert(result_target(results[i]) == target_langs[i]);
        }
    }
    lemma_failures_are_of_targets(results, target_langs);
}

proof fn lemma_failures_are_of_targets(rs: Seq<TargetResult>, targets: Seq<Seq<char>>)
    requires
        rs.len() <= targets.len(),
        forall|i: int| 0 <= i < rs.len() ==> result_target(#[trigger] rs[i]) == targets[i],
    ensures
        forall|i: int|
            0 <= i < failures(rs).len() ==> targets.contains((#[trigger] failures(rs)[i]).target),
    decreases rs.len(),
{
    if rs.len() > 0 {
        let head = rs.drop_last();
        assert forall|i: int| 0 <= i < head.len() implies result_target(#[trigger] head[i])
            == targets[i] by {
            assert(head[i] == rs[i]);
        }
        lemma_failures_are_of_targets(head, targets);
        let last = rs.len() - 1;
        assert(result_target(rs[last]) == targets[last]);
        assert forall|i: int| 0 <= i < failures(rs).len() implies targets.contains(
            (#[trigger] failures(rs)[i]).target,
        ) by {
            if i < failures(head).len() {
                assert(failures(rs)[i] == failures(head)[i]);
            } else {
                assert(failures(rs)[i].target == targets[last]);
            }
        }
    }
}

proof fn lemma_results_split(rs: Seq<TargetResult>)
    ensures
        failures(rs).len() == 0 <==> forall|i: int| 0 <= i < rs.len() ==> (#[trigger] rs[i]) is Ok,
        failures(rs).len() == 0 ==> ok_lines(rs).len() == rs.len() && forall|i: int|
            0 <= i < rs.len() ==> #[trigger] ok_lines(rs)[i] == rs[i]->Ok_0@,
    decreases rs.len(),
{
    if rs.len() > 0 {
        let head = rs.drop_last();
        lemma_results_split(head);
        assert(forall|i: int| 0 <= i < head.len() ==> head[i] == #[trigger] rs[i]);
        assert(rs[rs.len() - 1] == rs.last());
        if failures(rs).len() == 0 {
            assert forall|i: int| 0 <= i < rs.len() implies (#[trigger] rs[i]) is Ok by {
                if i < head.len() {
                    assert(head[i] is Ok);
                }
            }
        }
        if forall|i: int| 0 <= i < rs.len() ==> (#[trigger] rs[i]) is Ok {
            assert forall|i: int| 0 <= i < head.len() implies (#[trigger] head[i]) is Ok by {
                assert(rs[i] is Ok);
            }
        }
    }
}

// ── Laws ────────────────────────────────────────────────────────────────────
/// The bodies of a message hold every line, in order: its flag, a space and its
/// text, plain lines apart by a line feed and HTML lines by a line break.
pub proof fn law_bodies(line: TranslatedLineView, rest: Seq<TranslatedLineView>)
    ensures
        bodies(seq![]) == (Seq::<char>::empty(), Seq::<char>::empty()),
        bodies(seq![line]) == (
            flag(line.target) + " "@ + line.plain,
            flag(line.target) + " "@ + line.html,
        ),
        rest.len() > 0 ==> bodies(seq![line] + rest) == (
            flag(line.target) + " "@ + line.plain + "\n"@ + bodies(rest).0,
            flag(line.target) + " "@ + line.html + "<br>\n"@ + bodies(rest).1,
        ),
{
    let one = seq![line];
    let all = one + rest;
    let (p, h) = (flag(line.target) + " "@ + line.plain, flag(line.target) + " "@ + line.html);
    assert(flagged_plain(seq![]) =~= seq![]);
    assert(flagged_html(seq![]) =~= seq![]);
    assert(flagged_plain(one) =~= seq![p]);
    assert(flagged_html(one) =~= seq![h]);
    assert(flagged_plain(all) =~= seq![p] + flagged_plain(rest));
    assert(flagged_html(all) =~= seq![h] + flagged_html(rest));
    law_joining(p, flagged_plain(rest), "\n"@);
    law_joining(h, flagged_html(rest), "<br>\n"@);
}

/// A translation gives a line for its target unless it is empty or rejected; the
/// line holds it as it is.
pub proof fn law_line_outcome(
    target: Seq<char>,
    plain: Seq<char>,
    html: Seq<char>,
    rejected: Option<Seq<char>>,
)
    ensures
        ({
            let r = line_outcome(target, plain, html, rejected);
            &&& plain.len() == 0 ==> r == Err::<TranslatedLineView, TranslationErrorView>(
                TranslationErrorView {
                    kind: TranslationErrorKind::Empty,
                    detail: "translation produced empty text"@,
                },
            )
            &&& plain.len() > 0 ==> (rejected matches Some(reason) ==> r == Err::<
                TranslatedLineView,
                TranslationErrorView,
            >(TranslationErrorView { kind: TranslationErrorKind::Rejected, detail: reason }))
            &&& plain.len() > 0 && rejected is None ==> r == Ok::<
                TranslatedLineView,
                TranslationErrorView,
            >(TranslatedLineView { target, plain, html })
        }),
{
}

/// A suppressed batch tells its source, its context and what failed: after the
/// deadline every target, with the attempts that it had begun, and else exactly
/// the targets that failed, in order.
pub proof fn law_suppressed_batch_tells_what_failed(
    source: Seq<char>,
    target_langs: Seq<Seq<char>>,
    context: Seq<char>,
    overall_timeout: Interval,
    attempts: Map<Seq<char>, usize>,
    results: Option<Seq<TargetResult>>,
)
    ensures
        batch_outcome(source, target_langs, context, overall_timeout, attempts, results)
            matches Err(failure) ==> {
            let failed = failure.failed_targets;
            &&& failure.source == source
            &&& failure.context == context
            &&& results matches Some(rs) ==> failed == rs.filter(
                |r: TargetResult| r is Err,
            ).map_values(|r: TargetResult| r->Err_0@)
            &&& results is None ==> {
                &&& failed.len() == target_langs.len()
                &&& forall|i: int|
                    0 <= i < failed.len() ==> {
                        let f = #[trigger] failed[i];
                        &&& f.target == target_langs[i]
                        &&& f.attempts == if attempts.contains_key(target_langs[i]) {
                            attempts[target_langs[i]]
                        } else {
                            0
                        }
                        &&& f.error.kind == TranslationErrorKind::OverallTimeout
                        &&& f.error.detail == "overall deadline exceeded after "@ + decimal(
                            (overall_timeout.nanos / 1_000_000_000) as nat,
                        ) + "s"@
                    }
            }
        },
{
    if let Some(rs) = results {
        lemma_failures_filter(rs);
    }
}

proof fn lemma_failures_filter(rs: Seq<TargetResult>)
    ensures
        failures(rs) == rs.filter(|r: TargetResult| r is Err).map_values(
            |r: TargetResult| r->Err_0@,
        ),
    decreases rs.len(),
{
    reveal(Seq::filter);
    let kept = rs.filter(|r: TargetResult| r is Err);
    if rs.len() > 0 {
        let head = rs.drop_last();
        lemma_failures_filter(head);
        let kept_head = head.filter(|r: TargetResult| r is Err);
        if rs.last() is Err {
            assert(kept == kept_head.push(rs.last()));
            assert(kept.map_values(|r: TargetResult| r->Err_0@) =~= kept_head.map_values(
                |r: TargetResult| r->Err_0@,
            ).push(rs.last()->Err_0@));
        } else {
            assert(kept == kept_head);
        }
    } else {
        assert(kept.map_values(|r: TargetResult| r->Err_0@) =~= seq![]);
    }
}

/// The lines and failures of a result are those that it holds.
pub proof fn law_batch_views(
    lines: Vec<TranslatedLine>,
    failure: TranslationBatchFailure,
    line: TranslatedLine,
)
    ensures
        batch_view(Ok(lines)) matches Ok(v) && v.len() == lines@.len() && forall|i: int|
            0 <= i < v.len() ==> #[trigger] v[i] == lines@[i]@,
        batch_view(Err(failure)) matches Err(f) && f.source == failure.source@ && f.context
            == failure.context@ && f.suppressed == failure.suppressed && f.failed_targets.len()
            == failure.failed_targets@.len() && forall|i: int|
            0 <= i < f.failed_targets.len() ==> #[trigger] f.failed_targets[i]
                == failure.failed_targets@[i]@,
        line@.target == line.target@ && line@.plain == line.plain@ && line@.html == line.html@,
{
}

} // verus!

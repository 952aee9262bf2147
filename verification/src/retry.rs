//! Translating into one target language: attempts, backoff and the fallback
//! from HTML to plain text.
use vstd::prelude::*;

use crate::backoff::doublings;
use crate::batch::{
    build_html_line, build_text_line, line_outcome, line_result, Attempts, TargetFailureView,
    TargetResult, TargetTranslationFailure, TranslatedLine, TranslatedLineView,
};
use crate::config::{at_least_one, TranslationRetryPolicy};
use crate::error::{outcome_view, TranslationError, TranslationErrorKind, TranslationErrorView};
use crate::guard::rejection_of;
use crate::interval::{Interval, MAX_NANOS};
use crate::markup::{html_to_plain, inlined, plain_text};
use crate::stats::{wrapped_sum, Stats, StatsView};
use crate::text::trimmed;

verus! {

// ── Attempts ────────────────────────────────────────────────────────────────
/// The attempts for one target.
#[derive(Clone, Copy, Debug, PartialEq, Eq, Structural)]
pub struct TranslationRetry {
    /// How many attempts have begun.
    pub attempts: usize,
    /// How long to wait before the next retry.
    pub backoff: Interval,
    /// Whether what is being translated was tried again.
    pub retried: bool,
}

/// The most attempts that a policy allows: there is always a first one.
pub open spec fn attempt_limit(policy: TranslationRetryPolicy) -> int {
    at_least_one(policy.max_attempts as int)
}

impl TranslationRetry {
    pub open spec fn wf(self, policy: TranslationRetryPolicy) -> bool {
        &&& policy.wf()
        &&& self.attempts <= attempt_limit(policy)
        &&& self.backoff.wf()
    }

    /// Whether another attempt can begin.
    pub open spec fn ready(self, policy: TranslationRetryPolicy) -> bool {
        self.wf(policy) && self.attempts < attempt_limit(policy)
    }

    /// Whether an attempt has begun.
    pub open spec fn running(self, policy: TranslationRetryPolicy) -> bool {
        self.wf(policy) && self.attempts > 0
    }

    /// A target for which no attempt has begun.
    pub open spec fn fresh(policy: TranslationRetryPolicy) -> TranslationRetry {
        TranslationRetry { attempts: 0, backoff: policy.initial_backoff, retried: false }
    }

    /// Whether an attempt that failed with `kind` is followed by another.
    pub open spec fn retries(
        self,
        policy: TranslationRetryPolicy,
        kind: TranslationErrorKind,
    ) -> bool {
        self.attempts < policy.max_attempts && kind.transient()
    }

    /// The attempts once the backoff was waited for.
    pub open spec fn backed_off(self) -> TranslationRetry {
        TranslationRetry {
            attempts: self.attempts,
            backoff: self.backoff.twice(),
            retried: true,
        }
    }

    /// The attempts once another text is to be translated in place of the one
    /// that failed. What was begun still counts.
    pub open spec fn turned_to_text(self) -> TranslationRetry {
        TranslationRetry { retried: false, ..self }
    }

    /// A target for which no attempt has begun.
    pub fn start(policy: &TranslationRetryPolicy) -> (r: TranslationRetry)
        requires
            policy.wf(),
        ensures
            r == TranslationRetry::fresh(*policy),
            r.ready(*policy),
    {
        TranslationRetry { attempts: 0, backoff: policy.initial_backoff, retried: false }
    }

    /// Begins an attempt and notes its number under `target`.
    pub fn begin(
        &mut self,
        policy: &TranslationRetryPolicy,
        target: &str,
        attempts_by_target: &mut Attempts,
    )
        requires
            old(self).ready(*policy),
        ensures
            final(self).running(*policy),
            final(self).attempts == old(self).attempts + 1,
            final(self).backoff == old(self).backoff,
            final(self).retried == old(self).retried,
            final(attempts_by_target)@ == old(attempts_by_target)@.insert(
                target@,
                final(self).attempts,
            ),
    {
        self.attempts = self.attempts + 1;
        attempts_by_target.insert(target.to_owned(), self.attempts);
    }

    /// Notes that the running attempt has succeeded.
    pub fn on_success(&self, stats: &mut Stats)
        requires
            old(stats)@.wf(),
        ensures
            final(stats)@.wf(),
            final(stats)@ == success_noted(old(stats)@, self.retried),
    {
        if self.retried {
            stats.retries_succeeded = stats.retries_succeeded.wrapping_add(1);
        }
    }

    /// Decides after the running attempt has failed with `error`: how long to
    /// wait before the next one, or `None` where there is none.
    pub fn on_failure(
        &mut self,
        policy: &TranslationRetryPolicy,
        error: &TranslationError,
        stats: &mut Stats,
    ) -> (r: Option<Interval>)
        requires
            old(self).running(*policy),
            old(stats)@.wf(),
        ensures
            final(stats)@.wf(),
            old(self).retries(*policy, error.kind) ==> {
                &&& r == Some(old(self).backoff)
                &&& *final(self) == old(self).backed_off()
                &&& final(self).ready(*policy)
                &&& final(stats)@ == retry_noted(old(stats)@)
            },
            !old(self).retries(*policy, error.kind) ==> {
                &&& r is None
                &&& *final(self) == *old(self)
                &&& final(stats)@ == old(stats)@
            },
    {
        if !(self.attempts < policy.max_attempts && error.is_transient()) {
            return None;
        }
        stats.retries = stats.retries.wrapping_add(1);
        let wait = self.backoff;
        if !self.backoff.is_zero() {
            self.backoff = self.backoff.doubled();
        }
        self.retried = true;
        Some(wait)
    }
}

/// The statistics after an attempt succeeded, at a retry or at once.
pub open spec fn success_noted(stats: StatsView, retried: bool) -> StatsView {
    if retried {
        StatsView { retries_succeeded: wrapped_sum(stats.retries_succeeded, 1), ..stats }
    } else {
        stats
    }
}

/// The statistics after an attempt failed and is tried again.
pub open spec fn retry_noted(stats: StatsView) -> StatsView {
    StatsView { retries: wrapped_sum(stats.retries, 1), ..stats }
}

/// Only a transient failure is tried again, and only while the policy allows
/// another attempt.
pub proof fn law_only_transient_failures_are_retried(
    retry: TranslationRetry,
    policy: TranslationRetryPolicy,
    kind: TranslationErrorKind,
)
    requires
        retry.running(policy),
    ensures
        retry.retries(policy, kind) ==> kind.transient() && retry.backed_off().ready(policy),
        !kind.transient() ==> !retry.retries(policy, kind),
        retry.attempts == attempt_limit(policy) ==> !retry.retries(policy, kind),
{
}

/// The wait before the retry number `k`, counted from zero.
pub open spec fn wait_before(policy: TranslationRetryPolicy, k: nat) -> Interval
    decreases k,
{
    if k == 0 {
        policy.initial_backoff
    } else {
        wait_before(policy, (k - 1) as nat).twice()
    }
}

/// The wait doubles with each retry, from the initial backoff up to the longest
/// interval; without an initial backoff there is never a wait.
pub proof fn law_backoff_doubles(policy: TranslationRetryPolicy, k: nat)
    requires
        policy.wf(),
    ensures
        wait_before(policy, k).wf(),
        wait_before(policy, k).nanos == if policy.initial_backoff.nanos * doublings(k)
            <= MAX_NANOS {
            policy.initial_backoff.nanos * doublings(k)
        } else {
            MAX_NANOS as int
        },
        policy.initial_backoff.nanos == 0 ==> wait_before(policy, k).nanos == 0,
    decreases k,
{
    let start = policy.initial_backoff.nanos;
    if k > 0 {
        let m = (k - 1) as nat;
        law_backoff_doubles(policy, m);
        let d = doublings(m);
        assert(start * (2 * d) == 2 * (start * d)) by (nonlinear_arith);
    } else {
        assert(start * 1 == start);
    }
}

// ── One target ──────────────────────────────────────────────────────────────
/// What is to be translated.
pub enum TranslationInput {
    Text { plain: String },
    Html { html: String, plain: String },
}

pub enum InputView {
    Text { plain: Seq<char> },
    Html { html: Seq<char>, plain: Seq<char> },
}

impl View for TranslationInput {
    type V = InputView;

    open spec fn view(&self) -> InputView {
        match self {
            TranslationInput::Text { plain } => InputView::Text { plain: plain@ },
            TranslationInput::Html { html, plain } => InputView::Html {
                html: html@,
                plain: plain@,
            },
        }
    }
}

impl InputView {
    /// The plain text of the input.
    pub open spec fn plain_part(self) -> Seq<char> {
        match self {
            InputView::Text { plain } => plain,
            InputView::Html { plain, .. } => plain,
        }
    }
}

impl TranslationInput {
    /// An input that says the same.
    pub fn copy(&self) -> (r: TranslationInput)
        ensures
            r@ == self@,
    {
        match self {
            TranslationInput::Text { plain } => TranslationInput::Text { plain: plain.clone() },
            TranslationInput::Html { html, plain } => TranslationInput::Html {
                html: html.clone(),
                plain: plain.clone(),
            },
        }
    }
}

/// A request to the translation backend.
pub struct BackendRequest {
    pub text: String,
    /// `html` or `text`.
    pub format: &'static str,
}

pub struct RequestView {
    pub text: Seq<char>,
    pub format: Seq<char>,
}

impl View for BackendRequest {
    type V = RequestView;

    open spec fn view(&self) -> RequestView {
        RequestView { text: self.text@, format: self.format@ }
    }
}

/// The translation of one event into one language.
pub struct TargetJob {
    pub target: String,
    /// What is being translated; an HTML input that failed for good has become
    /// a text input.
    pub input: TranslationInput,
    pub retry: TranslationRetry,
}

pub struct TargetJobView {
    pub target: Seq<char>,
    pub input: InputView,
    pub retry: TranslationRetry,
}

impl View for TargetJob {
    type V = TargetJobView;

    open spec fn view(&self) -> TargetJobView {
        TargetJobView { target: self.target@, input: self.input@, retry: self.retry }
    }
}

/// What follows an attempt.
pub enum JobStep {
    /// Another attempt, after this wait.
    Again(Interval),
    /// The result for the target.
    Done(TargetResult),
}

pub enum JobStepView {
    Again(Interval),
    Done(Result<TranslatedLineView, TargetFailureView>),
}

impl View for JobStep {
    type V = JobStepView;

    open spec fn view(&self) -> JobStepView {
        match self {
            JobStep::Again(wait) => JobStepView::Again(*wait),
            JobStep::Done(Ok(line)) => JobStepView::Done(Ok(line@)),
            JobStep::Done(Err(failure)) => JobStepView::Done(Err(failure@)),
        }
    }
}

/// The request that is made for an input.
pub open spec fn request_for(input: InputView) -> RequestView {
    match input {
        InputView::Text { plain } => RequestView { text: plain, format: "text"@ },
        InputView::Html { html, .. } => RequestView { text: html, format: "html"@ },
    }
}

/// The line that the backend's text gives for an input.
pub open spec fn line_for(target: Seq<char>, input: InputView, text: Seq<char>) -> Result<
    TranslatedLineView,
    TranslationErrorView,
> {
    match input {
        InputView::Text { plain } => line_outcome(
            target,
            trimmed(text),
            trimmed(text),
            rejection_of(plain, trimmed(text)),
        ),
        InputView::Html { html, .. } => line_outcome(
            target,
            plain_text(text),
            inlined(text),
            rejection_of(plain_text(html), plain_text(text)),
        ),
    }
}

/// The line or the error that the backend's reply gives for an input.
pub open spec fn line_from_reply(
    target: Seq<char>,
    input: InputView,
    reply: Result<Seq<char>, TranslationErrorView>,
) -> Result<TranslatedLineView, TranslationErrorView> {
    match reply {
        Ok(text) => line_for(target, input, text),
        Err(error) => Err(error),
    }
}

/// An empty wait.
pub open spec fn no_wait() -> Interval {
    Interval { nanos: 0 }
}

impl TargetJobView {
    /// Whether the plain text is tried where the running attempt failed for
    /// good: the input is HTML, and the target has an attempt left.
    pub open spec fn falls_back(self, policy: TranslationRetryPolicy) -> bool {
        self.input is Html && self.retry.attempts < attempt_limit(policy)
    }

    /// What follows an attempt that gave `line`.
    pub open spec fn step(
        self,
        policy: TranslationRetryPolicy,
        line: Result<TranslatedLineView, TranslationErrorView>,
    ) -> JobStepView {
        match line {
            Ok(l) => JobStepView::Done(Ok(l)),
            Err(error) => if self.retry.retries(policy, error.kind) {
                JobStepView::Again(self.retry.backoff)
            } else if self.falls_back(policy) {
                JobStepView::Again(no_wait())
            } else {
                JobStepView::Done(
                    Err(
                        TargetFailureView {
                            target: self.target,
                            attempts: self.retry.attempts as nat,
                            error,
                        },
                    ),
                )
            },
        }
    }

    /// The job after an attempt that gave `line`.
    pub open spec fn after(
        self,
        policy: TranslationRetryPolicy,
        line: Result<TranslatedLineView, TranslationErrorView>,
    ) -> TargetJobView {
        match line {
            Ok(_) => self,
            Err(error) => if self.retry.retries(policy, error.kind) {
                TargetJobView { retry: self.retry.backed_off(), ..self }
            } else if self.falls_back(policy) {
                TargetJobView {
                    input: InputView::Text { plain: self.input.plain_part() },
                    retry: self.retry.turned_to_text(),
                    ..self
                }
            } else {
                self
            },
        }
    }

    /// The statistics after an attempt that gave `line`.
    pub open spec fn noted(
        self,
        policy: TranslationRetryPolicy,
        line: Result<TranslatedLineView, TranslationErrorView>,
        stats: StatsView,
    ) -> StatsView {
        match line {
            Ok(_) => success_noted(stats, self.retry.retried),
            Err(error) => if self.retry.retries(policy, error.kind) {
                retry_noted(stats)
            } else {
                stats
            },
        }
    }

    /// The job once its next attempt has begun.
    pub open spec fn begun(self) -> TargetJobView {
        TargetJobView {
            retry: TranslationRetry {
                attempts: (self.retry.attempts + 1) as usize,
                ..self.retry
            },
            ..self
        }
    }

    /// The result of the job where the backend gives `replies`, one to each
    /// attempt; `None` where they are too few.
    pub open spec fn result(
        self,
        policy: TranslationRetryPolicy,
        replies: Seq<Result<Seq<char>, TranslationErrorView>>,
    ) -> Option<Result<TranslatedLineView, TargetFailureView>>
        decreases replies.len(),
    {
        if replies.len() == 0 {
            None
        } else {
            let line = line_from_reply(self.target, self.input, replies[0]);
            match self.begun().step(policy, line) {
                JobStepView::Done(r) => Some(r),
                JobStepView::Again(_) => self.begun().after(policy, line).result(
                    policy,
                    replies.skip(1),
                ),
            }
        }
    }

    /// How many attempts the job can still begin.
    pub open spec fn remaining(self, policy: TranslationRetryPolicy) -> int {
        attempt_limit(policy) - self.retry.attempts
    }
}

impl TargetJob {
    /// The job of translating `input` into `target`.
    pub fn new(target: &str, input: TranslationInput, policy: &TranslationRetryPolicy) -> (r: Self)
        requires
            policy.wf(),
        ensures
            r@ == (TargetJobView {
                target: target@,
                input: input@,
                retry: TranslationRetry::fresh(*policy),
            }),
            r.retry.ready(*policy),
    {
        TargetJob {
            target: target.to_owned(),
            input,
            retry: TranslationRetry::start(policy),
        }
    }

    /// Begins the next attempt and says what to ask the backend.
    pub fn begin_attempt(
        &mut self,
        policy: &TranslationRetryPolicy,
        attempts_by_target: &mut Attempts,
    ) -> (request: BackendRequest)
        requires
            old(self).retry.ready(*policy),
        ensures
            request@ == request_for(old(self)@.input),
            final(self)@ == old(self)@.begun(),
            final(self).retry.running(*policy),
            final(attempts_by_target)@ == old(attempts_by_target)@.insert(
                old(self)@.target,
                final(self).retry.attempts,
            ),
    {
        let request = match &self.input {
            TranslationInput::Text { plain } => BackendRequest {
                text: plain.clone(),
                format: "text",
            },
            TranslationInput::Html { html, .. } => BackendRequest {
                text: html.clone(),
                format: "html",
            },
        };
        self.retry.begin(policy, self.target.as_str(), attempts_by_target);
        request
    }

    /// Decides after an attempt that gave `line`: another attempt, the fallback
    /// from HTML to plain text where an attempt is left, or the result.
    pub fn on_line(
        &mut self,
        line: Result<TranslatedLine, TranslationError>,
        policy: &TranslationRetryPolicy,
        stats: &mut Stats,
    ) -> (step: JobStep)
        requires
            old(self).retry.running(*policy),
            old(stats)@.wf(),
        ensures
            step@ == old(self)@.step(*policy, line_result(line)),
            final(self)@ == old(self)@.after(*policy, line_result(line)),
            step is Again ==> final(self).retry.ready(*policy),
            final(stats)@.wf(),
            final(stats)@ == old(self)@.noted(*policy, line_result(line), old(stats)@),
    {
        match line {
            Ok(line) => {
                self.retry.on_success(stats);
                JobStep::Done(Ok(line))
            },
            Err(error) => {
                match self.retry.on_failure(policy, &error, stats) {
                    Some(wait) => JobStep::Again(wait),
                    None => {
                        let left: bool = self.retry.attempts < policy.max_attempts;
                        let fallback: Option<String> = match &self.input {
                            TranslationInput::Html { plain, .. } => if left {
                                Some(plain.clone())
                            } else {
                                None
                            },
                            TranslationInput::Text { .. } => None,
                        };
                        match fallback {
                            Some(plain) => {
                                self.input = TranslationInput::Text { plain };
                                self.retry.retried = false;
                                JobStep::Again(Interval { nanos: 0 })
                            },
                            None => JobStep::Done(
                                Err(
                                    TargetTranslationFailure {
                                        target: self.target.clone(),
                                        attempts: self.retry.attempts,
                                        error,
                                    },
                                ),
                            ),
                        }
                    },
                }
            },
        }
    }

    /// Decides after the backend's reply to an attempt.
    pub fn on_reply(
        &mut self,
        reply: Result<String, TranslationError>,
        policy: &TranslationRetryPolicy,
        stats: &mut Stats,
    ) -> (step: JobStep)
        requires
            old(self).retry.running(*policy),
            old(stats)@.wf(),
        ensures
            ({
                let line = line_from_reply(
                    old(self)@.target,
                    old(self)@.input,
                    outcome_view(reply),
                );
                &&& step@ == old(self)@.step(*policy, line)
                &&& final(self)@ == old(self)@.after(*policy, line)
                &&& step is Again ==> final(self).retry.ready(*policy)
                &&& final(stats)@.wf()
                &&& final(stats)@ == old(self)@.noted(*policy, line, old(stats)@)
            }),
    {
        let line: Result<TranslatedLine, TranslationError> = match reply {
            Ok(text) => match &self.input {
                TranslationInput::Text { plain } => build_text_line(
                    self.target.as_str(),
                    plain.as_str(),
                    text,
                ),
                TranslationInput::Html { html, .. } => {
                    let source_plain = html_to_plain(html.as_str());
                    build_html_line(self.target.as_str(), source_plain.as_str(), text)
                },
            },
            Err(error) => Err(error),
        };
        self.on_line(line, policy, stats)
    }
}

/// A job ends: beginning an attempt and going on after it leaves exactly one
/// attempt fewer that can still begin, and a new job has as many as the policy
/// allows for a target, be it HTML or text.
pub proof fn law_attempts_are_bounded(
    job: TargetJobView,
    policy: TranslationRetryPolicy,
    line: Result<TranslatedLineView, TranslationErrorView>,
)
    requires
        job.retry.ready(policy),
    ensures
        ({
            let begun = job.begun();
            &&& begun.after(policy, line).remaining(policy) == job.remaining(policy) - 1
            &&& begun.step(policy, line) is Again ==> 0 < begun.after(policy, line).remaining(
                policy,
            )
        }),
        ({
            let first = TargetJobView { retry: TranslationRetry::fresh(policy), ..job };
            first.remaining(policy) == attempt_limit(policy)
        }),
{
}

/// An HTML input that cannot be translated falls back to the plain text as long
/// as the target has an attempt left: a target fails only where its plain text
/// was tried or its attempts are used up. The attempts that the HTML took count
/// for the plain text too.
pub proof fn law_html_falls_back_to_text(
    job: TargetJobView,
    policy: TranslationRetryPolicy,
    line: Result<TranslatedLineView, TranslationErrorView>,
)
    requires
        job.retry.running(policy),
    ensures
        job.step(policy, line) matches JobStepView::Done(Err(_)) ==> job.input is Text
            || job.retry.attempts == attempt_limit(policy),
        job.input matches InputView::Html { plain, .. } ==> (line matches Err(error)
            && !job.retry.retries(policy, error.kind) && job.retry.attempts < attempt_limit(
            policy,
        ) ==> {
            &&& job.step(policy, line) == JobStepView::Again(no_wait())
            &&& job.after(policy, line).input == (InputView::Text { plain })
            &&& job.after(policy, line).retry.attempts == job.retry.attempts
        }),
{
}

/// A result is about the target of its job, whatever the backend replied, and
/// the job keeps its target.
pub proof fn law_results_name_their_target(
    job: TargetJobView,
    policy: TranslationRetryPolicy,
    reply: Result<Seq<char>, TranslationErrorView>,
)
    ensures
        ({
            let line = line_from_reply(job.target, job.input, reply);
            &&& job.step(policy, line) matches JobStepView::Done(Ok(l)) ==> l.target == job.target
            &&& job.step(policy, line) matches JobStepView::Done(Err(f)) ==> f.target
                == job.target
            &&& job.after(policy, line).target == job.target
            &&& job.begun().target == job.target
        }),
{
}

/// Where a job ends upon the backend's replies, it ends within the attempts that
/// it has left, and its result is about its target.
pub proof fn law_job_ends_with_its_target(
    job: TargetJobView,
    policy: TranslationRetryPolicy,
    replies: Seq<Result<Seq<char>, TranslationErrorView>>,
)
    requires
        job.retry.ready(policy),
    ensures
        job.result(policy, replies) matches Some(Ok(l)) ==> l.target == job.target,
        job.result(policy, replies) matches Some(Err(f)) ==> f.target == job.target,
        replies.len() >= job.remaining(policy) ==> job.result(policy, replies) is Some,
    decreases replies.len(),
{
    if replies.len() > 0 {
        let begun = job.begun();
        let line = line_from_reply(job.target, job.input, replies[0]);
        law_results_name_their_target(begun, policy, replies[0]);
        if begun.step(policy, line) is Again {
            law_attempts_are_bounded(job, policy, line);
            law_job_ends_with_its_target(begun.after(policy, line), policy, replies.skip(1));
        }
    }
}

/// A failed attempt is repeated exactly where the failure is transient and the
/// policy allows more attempts than have begun; it then waits for the backoff,
/// which doubles for the next time.
pub proof fn law_retries(
    retry: TranslationRetry,
    policy: TranslationRetryPolicy,
    kind: TranslationErrorKind,
)
    ensures
        retry.retries(policy, kind) <==> kind.transient() && retry.attempts < policy.max_attempts,
        retry.backed_off().attempts == retry.attempts,
        retry.backed_off().retried,
        retry.backoff.nanos * 2 <= MAX_NANOS ==> retry.backed_off().backoff.nanos
            == retry.backoff.nanos * 2,
        retry.backoff.nanos * 2 > MAX_NANOS ==> retry.backed_off().backoff.nanos == MAX_NANOS,
        TranslationRetry::fresh(policy).attempts == 0,
        TranslationRetry::fresh(policy).backoff == policy.initial_backoff,
        !TranslationRetry::fresh(policy).retried,
        attempt_limit(policy) == if policy.max_attempts == 0 {
            1
        } else {
            policy.max_attempts as int
        },
{
}

/// What follows an attempt. A line ends the job with that line. A failure that
/// is transient is followed by another attempt after the backoff while the
/// policy allows one; HTML that failed otherwise by an attempt at once with its
/// plain text, where one is left; and everything else ends the job with the
/// failure, its target and the number of attempts.
pub proof fn law_what_follows_an_attempt(
    job: TargetJobView,
    policy: TranslationRetryPolicy,
    l: TranslatedLineView,
    e: TranslationErrorView,
)
    ensures
        job.step(policy, Ok(l)) == JobStepView::Done(Ok(l)),
        job.retry.attempts < usize::MAX ==> job.begun().retry.attempts == job.retry.attempts + 1,
        job.begun().retry.backoff == job.retry.backoff,
        job.begun().retry.retried == job.retry.retried,
        job.begun().input == job.input,
        job.begun().target == job.target,
        ({
            let again = e.kind.transient() && job.retry.attempts < policy.max_attempts;
            let limit = if policy.max_attempts == 0 {
                1
            } else {
                policy.max_attempts as int
            };
            let failed = Err::<TranslatedLineView, TranslationErrorView>(e);
            &&& again ==> job.step(policy, failed) == JobStepView::Again(job.retry.backoff)
                && job.after(policy, failed).input == job.input && job.after(policy, failed).retry
                == job.retry.backed_off()
            &&& !again && job.input is Html && job.retry.attempts < limit ==> {
                &&& job.step(policy, failed) == JobStepView::Again(Interval { nanos: 0 })
                &&& job.after(policy, failed).input == (InputView::Text {
                    plain: job.input->Html_plain,
                })
                &&& job.after(policy, failed).retry.backoff == job.retry.backoff
                &&& job.after(policy, failed).retry.attempts == job.retry.attempts
                &&& !job.after(policy, failed).retry.retried
            }
            &&& !again && !(job.input is Html && job.retry.attempts < limit) ==> job.step(
                policy,
                failed,
            ) == JobStepView::Done(
                Err(
                    TargetFailureView {
                        target: job.target,
                        attempts: job.retry.attempts as nat,
                        error: e,
                    },
                ),
            )
        }),
{
}

/// The backend is asked for the HTML of an HTML input and for the plain text of
/// another, and its answer is taken in the same form: HTML becomes the inline
/// HTML and its plain text, a text is trimmed and serves as both. It has to
/// stand the comparison with the plain text of what was asked.
pub proof fn law_requests_and_answers(
    target: Seq<char>,
    html: Seq<char>,
    plain: Seq<char>,
    answer: Seq<char>,
    e: TranslationErrorView,
)
    ensures
        ({
            let h = InputView::Html { html, plain };
            let t = InputView::Text { plain };
            &&& request_for(h) == (RequestView { text: html, format: "html"@ })
            &&& request_for(t) == (RequestView { text: plain, format: "text"@ })
            &&& line_from_reply(target, h, Ok(answer)) == line_outcome(
                target,
                plain_text(answer),
                inlined(answer),
                rejection_of(plain_text(html), plain_text(answer)),
            )
            &&& line_from_reply(target, t, Ok(answer)) == line_outcome(
                target,
                trimmed(answer),
                trimmed(answer),
                rejection_of(plain, trimmed(answer)),
            )
            &&& line_from_reply(target, h, Err(e)) == Err::<TranslatedLineView, TranslationErrorView>(
                e,
            )
            &&& line_from_reply(target, t, Err(e)) == Err::<TranslatedLineView, TranslationErrorView>(
                e,
            )
        }),
{
}

/// A retry is counted when it begins, and once more where it leads to a line.
pub proof fn law_retries_are_counted(
    job: TargetJobView,
    policy: TranslationRetryPolicy,
    l: TranslatedLineView,
    e: TranslationErrorView,
    stats: StatsView,
)
    ensures
        job.noted(policy, Ok(l), stats) == (StatsView {
            retries_succeeded: if job.retry.retried {
                stats.retries_succeeded.wrapping_add(1)
            } else {
                stats.retries_succeeded
            },
            ..stats
        }),
        job.noted(policy, Err(e), stats) == (StatsView {
            retries: if job.retry.retries(policy, e.kind) {
                stats.retries.wrapping_add(1)
            } else {
                stats.retries
            },
            ..stats
        }),
{
}

/// Inputs, requests, jobs and their results say what they hold.
pub proof fn law_retry_views(
    html: String,
    plain: String,
    request: BackendRequest,
    job: TargetJob,
    wait: Interval,
    line: TranslatedLine,
    failure: TargetTranslationFailure,
)
    ensures
        (TranslationInput::Text { plain })@ == (InputView::Text { plain: plain@ }),
        (TranslationInput::Html { html, plain })@ == (InputView::Html { html: html@, plain: plain@ }),
        (InputView::Text { plain: plain@ }).plain_part() == plain@,
        (InputView::Html { html: html@, plain: plain@ }).plain_part() == plain@,
        request@.text == request.text@ && request@.format == request.format@,
        job@.target == job.target@ && job@.input == job.input@ && job@.retry == job.retry,
        JobStep::Again(wait)@ == JobStepView::Again(wait),
        JobStep::Done(Ok(line))@ == JobStepView::Done(Ok(line@)),
        JobStep::Done(Err(failure))@ == JobStepView::Done(Err(failure@)),
        failure@.target == failure.target@ && failure@.attempts == failure.attempts && failure@.error
            == failure.error@,
{
}

} // verus!

use translate_bot::batch::{
    collect_all_or_nothing, Attempts, TargetTranslationFailure, TranslatedLine,
};
use translate_bot::config::TranslationRetryPolicy;
use translate_bot::error::{TranslationError, TranslationErrorKind};
use translate_bot::handler::translate_all_targets;
use translate_bot::interval::Interval;
use translate_bot::retry::{JobStep, TargetJob, TranslationInput};
use translate_bot::stats::Stats;

fn test_policy() -> TranslationRetryPolicy {
    TranslationRetryPolicy {
        request_timeout: Interval::from_millis(20),
        max_attempts: 3,
        initial_backoff: Interval::from_millis(0),
        overall_timeout: Interval::from_millis(100),
    }
}

fn test_line(target: &str) -> TranslatedLine {
    TranslatedLine {
        target: target.to_owned(),
        plain: format!("{target} plain"),
        html: format!("{target} html"),
    }
}

fn text(plain: &str) -> TranslationInput {
    TranslationInput::Text { plain: plain.to_owned() }
}

fn html(html: &str, plain: &str) -> TranslationInput {
    TranslationInput::Html { html: html.to_owned(), plain: plain.to_owned() }
}

/// Runs a job with the lines that `op` gives, one per attempt.
fn run(
    mut job: TargetJob,
    policy: &TranslationRetryPolicy,
    attempts: &mut Attempts,
    stats: &mut Stats,
    mut op: impl FnMut() -> Result<TranslatedLine, TranslationError>,
) -> Result<TranslatedLine, TargetTranslationFailure> {
    loop {
        job.begin_attempt(policy, attempts);
        match job.on_line(op(), policy, stats) {
            JobStep::Again(_) => {}
            JobStep::Done(result) => return result,
        }
    }
}

#[test]
fn transient_failure_succeeds_on_retry() {
    let policy = test_policy();
    let mut calls = 0;
    let mut stats = Stats::new();
    let mut attempts = Attempts::new();
    let job = TargetJob::new("en", text("hallo"), &policy);
    let line = run(job, &policy, &mut attempts, &mut stats, || {
        calls += 1;
        if calls == 1 {
            Err(TranslationError::new(
                TranslationErrorKind::BackendBusy,
                "Server busy, please try again later",
            ))
        } else {
            Ok(test_line("en"))
        }
    })
    .unwrap();

    assert_eq!(line.target, "en");
    assert_eq!(calls, 2);
    assert_eq!(stats.retries, 1);
    assert_eq!(stats.retries_succeeded, 1);
    assert_eq!(attempts.get("en"), 2);
}

#[test]
fn permanent_failure_is_not_retried_excessively() {
    let policy = test_policy();
    let mut calls = 0;
    let mut stats = Stats::new();
    let job = TargetJob::new("en", text("hallo"), &policy);
    let failure = run(job, &policy, &mut Attempts::new(), &mut stats, || {
        calls += 1;
        Err(TranslationError::new(
            TranslationErrorKind::ResponseParse,
            "malformed success response",
        ))
    })
    .unwrap_err();

    assert_eq!(failure.attempts, 1);
    assert_eq!(calls, 1);
    // Not transient — must not count as a retry attempt.
    assert_eq!(stats.retries, 0);
    assert_eq!(stats.retries_succeeded, 0);
}

#[test]
fn retries_return_single_batch_without_duplicates() {
    let policy = test_policy();
    let mut calls = 0;
    let mut stats = Stats::new();
    let job = TargetJob::new("en", text("hallo"), &policy);
    let retried = run(job, &policy, &mut Attempts::new(), &mut stats, || {
        calls += 1;
        if calls == 1 {
            Err(TranslationError::new(TranslationErrorKind::Timeout, "timed out"))
        } else {
            Ok(test_line("en"))
        }
    });
    let targets = vec!["en".to_owned()];
    let lines = collect_all_or_nothing(
        "de",
        &targets,
        "message",
        Interval::from_millis(100),
        &Attempts::new(),
        Some(vec![retried]),
    )
    .unwrap();

    assert_eq!(lines.len(), 1);
    assert_eq!(calls, 2);
}

#[test]
fn transient_failures_stop_at_the_limit() {
    let policy = test_policy();
    let mut calls = 0;
    let mut stats = Stats::new();
    let mut attempts = Attempts::new();
    let job = TargetJob::new("en", text("hallo"), &policy);
    let failure = run(job, &policy, &mut attempts, &mut stats, || {
        calls += 1;
        Err(TranslationError::new(TranslationErrorKind::HttpStatus(503), "down"))
    })
    .unwrap_err();
    assert_eq!(calls, 3);
    assert_eq!(failure.attempts, 3);
    assert_eq!(failure.target, "en");
    assert_eq!(failure.error.detail, "down");
    assert_eq!(stats.retries, 2);
    assert_eq!(attempts.get("en"), 3);
}

#[test]
fn backoff_doubles_unless_it_is_zero() {
    let policy = TranslationRetryPolicy {
        max_attempts: 4,
        initial_backoff: Interval::from_millis(250),
        ..test_policy()
    };
    let mut stats = Stats::new();
    let mut attempts = Attempts::new();
    let mut job = TargetJob::new("en", text("hallo"), &policy);
    let mut waits = Vec::new();
    loop {
        job.begin_attempt(&policy, &mut attempts);
        let busy = Err(TranslationError::new(TranslationErrorKind::Request, "x"));
        match job.on_reply(busy, &policy, &mut stats) {
            JobStep::Again(wait) => waits.push(wait.as_millis()),
            JobStep::Done(_) => break,
        }
    }
    assert_eq!(waits, vec![250, 500, 1000]);
}

#[test]
fn html_falls_back_to_text() {
    let policy = test_policy();
    let mut stats = Stats::new();
    let mut attempts = Attempts::new();
    let mut job = TargetJob::new("en", html("<b>hallo</b>", "hallo"), &policy);

    let request = job.begin_attempt(&policy, &mut attempts);
    assert_eq!((request.text.as_str(), request.format), ("<b>hallo</b>", "html"));
    let empty = Ok("<p></p>".to_owned());
    assert!(matches!(job.on_reply(empty, &policy, &mut stats), JobStep::Again(w) if w.is_zero()));

    let request = job.begin_attempt(&policy, &mut attempts);
    assert_eq!((request.text.as_str(), request.format), ("hallo", "text"));
    assert_eq!(attempts.get("en"), 2);
    let reply = Ok(" hello ".to_owned());
    match job.on_reply(reply, &policy, &mut stats) {
        JobStep::Done(Ok(line)) => assert_eq!(line.html, "hello"),
        _ => panic!("expected a line"),
    }
    assert_eq!(stats.retries, 0);
    assert_eq!(stats.retries_succeeded, 0);
}

#[test]
fn html_and_text_share_the_attempts_of_a_target() {
    let policy = test_policy();
    let mut calls = 0;
    let mut stats = Stats::new();
    let job = TargetJob::new("en", html("<b>hallo</b>", "hallo"), &policy);
    let failure = run(job, &policy, &mut Attempts::new(), &mut stats, || {
        calls += 1;
        Err(TranslationError::new(TranslationErrorKind::Timeout, "slow"))
    })
    .unwrap_err();
    assert_eq!(calls, 3);
    assert_eq!(failure.attempts, 3);
    assert_eq!(stats.retries, 2);

    let policy = TranslationRetryPolicy { max_attempts: 1, ..test_policy() };
    let mut calls = 0;
    let job = TargetJob::new("en", html("<b>hallo</b>", "hallo"), &policy);
    let failure = run(job, &policy, &mut Attempts::new(), &mut stats, || {
        calls += 1;
        Err(TranslationError::new(TranslationErrorKind::Rejected, "loop"))
    })
    .unwrap_err();
    assert_eq!((calls, failure.attempts), (1, 1));
}

#[test]
fn a_fallback_keeps_the_backoff_and_is_no_retry() {
    let policy = TranslationRetryPolicy {
        max_attempts: 4,
        initial_backoff: Interval::from_millis(250),
        ..test_policy()
    };
    let mut stats = Stats::new();
    let mut attempts = Attempts::new();
    let mut job = TargetJob::new("en", html("<b>hallo</b>", "hallo"), &policy);
    let error = |kind| Err(TranslationError::new(kind, "x"));
    let mut waits = Vec::new();
    for kind in [
        TranslationErrorKind::Timeout,
        TranslationErrorKind::ResponseParse,
        TranslationErrorKind::Timeout,
    ] {
        job.begin_attempt(&policy, &mut attempts);
        match job.on_reply(error(kind), &policy, &mut stats) {
            JobStep::Again(wait) => waits.push(wait.as_millis()),
            JobStep::Done(_) => panic!("expected another attempt"),
        }
        assert_eq!(stats.retries_succeeded, 0);
    }
    assert_eq!(waits, vec![250, 0, 500]);
    let request = job.begin_attempt(&policy, &mut attempts);
    assert_eq!(request.format, "text");
    assert_eq!(attempts.get("en"), 4);
    let step = job.on_reply(Ok("hello".to_owned()), &policy, &mut stats);
    assert!(matches!(step, JobStep::Done(Ok(_))));
    assert_eq!((stats.retries, stats.retries_succeeded), (2, 1));
}

#[test]
fn html_is_checked_against_the_text_of_its_source() {
    let policy = test_policy();
    let mut stats = Stats::new();
    let mut job = TargetJob::new("en", html("&lt;|tok&gt;", "other"), &policy);
    job.begin_attempt(&policy, &mut Attempts::new());
    let reply = Ok("<p>&lt;|tok&gt; fine</p>".to_owned());
    match job.on_reply(reply, &policy, &mut stats) {
        JobStep::Done(Ok(line)) => assert_eq!(line.plain, "<|tok> fine"),
        _ => panic!("expected a line"),
    }
}

#[test]
fn a_policy_without_attempts_still_makes_one() {
    let policy = TranslationRetryPolicy { max_attempts: 0, ..test_policy() };
    let mut calls = 0;
    let mut stats = Stats::new();
    let job = TargetJob::new("en", text("hallo"), &policy);
    let failure = run(job, &policy, &mut Attempts::new(), &mut stats, || {
        calls += 1;
        Err(TranslationError::new(TranslationErrorKind::Timeout, "slow"))
    })
    .unwrap_err();
    assert_eq!((calls, failure.attempts), (1, 1));
}

#[test]
fn every_target_gets_a_job() {
    let policy = test_policy();
    let targets = vec!["en".to_owned(), "uk".to_owned()];
    let jobs = translate_all_targets(&text("hallo"), &targets, &policy);
    let langs: Vec<&str> = jobs.iter().map(|job| job.target.as_str()).collect();
    assert_eq!(langs, vec!["en", "uk"]);
    assert!(jobs.iter().all(|job| job.retry.attempts == 0));
}

#[test]
fn lines_are_in_the_order_of_the_targets() {
    let policy = test_policy();
    let targets = vec!["uk".to_owned(), "en".to_owned(), "pl".to_owned()];
    let collect = |broken: &str| {
        let mut stats = Stats::new();
        let mut attempts = Attempts::new();
        let results: Vec<_> = translate_all_targets(&html("<b>hallo</b>", "hallo"), &targets, &policy)
            .into_iter()
            .map(|mut job| loop {
                job.begin_attempt(&policy, &mut attempts);
                let reply = if job.target == broken {
                    Err(TranslationError::new(TranslationErrorKind::HttpStatus(400), "bad"))
                } else {
                    Ok(format!("to {}", job.target))
                };
                if let JobStep::Done(result) = job.on_reply(reply, &policy, &mut stats) {
                    break result;
                }
            })
            .collect();
        collect_all_or_nothing(
            "de",
            &targets,
            "message",
            policy.overall_timeout,
            &attempts,
            Some(results),
        )
    };
    let lines = collect("none").unwrap();
    let got: Vec<(&str, &str)> =
        lines.iter().map(|line| (line.target.as_str(), line.plain.as_str())).collect();
    assert_eq!(got, vec![("uk", "to uk"), ("en", "to en"), ("pl", "to pl")]);

    let failure = collect("en").unwrap_err();
    assert_eq!(failure.failed_targets.len(), 1);
    assert_eq!(failure.failed_targets[0].target, "en");
    assert_eq!(failure.failed_targets[0].attempts, 2);
}

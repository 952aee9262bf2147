use translate_bot::batch::{
    build_html_line, build_text_line, build_translation_bodies, collect_all_or_nothing,
    line_given_rejection, Attempts, TargetTranslationFailure, TranslatedLine,
    TranslationBatchFailure,
};
use translate_bot::error::{TranslationError, TranslationErrorKind};
use translate_bot::interval::Interval;

fn test_line(target: &str) -> TranslatedLine {
    TranslatedLine {
        target: target.to_owned(),
        plain: format!("{target} plain"),
        html: format!("{target} html"),
    }
}

fn test_failure(
    target: &str,
    attempts: usize,
    kind: TranslationErrorKind,
) -> TargetTranslationFailure {
    TargetTranslationFailure {
        target: target.to_owned(),
        attempts,
        error: TranslationError::new(kind, "test failure"),
    }
}

#[test]
fn all_targets_succeed_first_attempt() {
    let targets = vec!["en".to_owned(), "uk".to_owned()];
    let result = collect_all_or_nothing(
        "de",
        &targets,
        "message",
        Interval::from_millis(100),
        &Attempts::new(),
        Some(targets.iter().map(|target| Ok(test_line(target))).collect()),
    )
    .unwrap();

    assert_eq!(result.len(), 2);
    assert_eq!(result[0].target, "en");
    assert_eq!(result[1].target, "uk");
}

#[test]
fn continued_target_failure_suppresses_partial_batch() {
    let targets = vec!["en".to_owned(), "uk".to_owned()];
    let failure = collect_all_or_nothing(
        "de",
        &targets,
        "message",
        Interval::from_millis(100),
        &Attempts::new(),
        Some(vec![
            Err(test_failure("en", 3, TranslationErrorKind::BackendBusy)),
            Ok(test_line("uk")),
        ]),
    )
    .unwrap_err();

    assert!(failure.suppressed);
    assert_eq!(failure.source, "de");
    assert_eq!(failure.failed_targets.len(), 1);
    assert_eq!(failure.failed_targets[0].target, "en");
}

#[test]
fn overall_deadline_suppresses_partial_batch() {
    let targets = vec!["en".to_owned(), "uk".to_owned()];
    let mut attempts = Attempts::new();
    attempts.insert("en".to_owned(), 1);

    let failure = collect_all_or_nothing(
        "de",
        &targets,
        "message",
        Interval::from_millis(10),
        &attempts,
        None,
    )
    .unwrap_err();

    assert!(failure.suppressed);
    assert!(failure
        .failed_targets
        .iter()
        .all(|target| target.error.kind == TranslationErrorKind::OverallTimeout));
    assert_eq!(failure.failed_targets.len(), 2);
    assert_eq!(failure.failed_targets[0].attempts, 1);
    assert_eq!(failure.failed_targets[1].attempts, 0);
    assert_eq!(
        failure.failed_targets[0].error.detail,
        "overall deadline exceeded after 0s"
    );
}

#[test]
fn deadline_is_told_in_whole_seconds() {
    let targets = vec!["en".to_owned()];
    let failure = collect_all_or_nothing(
        "de",
        &targets,
        "edit",
        Interval::from_secs(90),
        &Attempts::new(),
        None,
    )
    .unwrap_err();
    assert_eq!(failure.context, "edit");
    assert_eq!(
        failure.failed_targets[0].error.detail,
        "overall deadline exceeded after 90s"
    );
}

#[test]
fn formatting_is_shared_for_message_caption_and_edit_paths() {
    let lines = vec![test_line("en"), test_line("uk")];
    let (plain, html) = build_translation_bodies(&lines);

    assert_eq!(plain, "🇬🇧 en plain\n🇺🇦 uk plain");
    assert_eq!(html, "🇬🇧 en html<br>\n🇺🇦 uk html");
}

#[test]
fn no_lines_give_empty_bodies() {
    assert_eq!(build_translation_bodies(&vec![]), (String::new(), String::new()));
}

#[test]
fn batch_failure_status_records_suppressed_partial_translation() {
    let failure = TranslationBatchFailure {
        source: "de".to_owned(),
        context: "message",
        failed_targets: vec![test_failure("en", 3, TranslationErrorKind::BackendBusy)],
        suppressed: true,
    };

    assert!(failure.suppressed);
    assert_eq!(failure.failed_targets[0].attempts, 3);
    assert_eq!(failure.failed_targets[0].error.class(), "backend_busy");
}

#[test]
fn text_lines_are_trimmed_and_checked() {
    assert_eq!(
        build_text_line("en", "hallo", " hello \n".to_owned()),
        Ok(TranslatedLine {
            target: "en".to_owned(),
            plain: "hello".to_owned(),
            html: "hello".to_owned(),
        })
    );
    assert_eq!(
        build_text_line("en", "hallo", " \n".to_owned()),
        Err(TranslationError::new(
            TranslationErrorKind::Empty,
            "translation produced empty text"
        ))
    );
    assert_eq!(
        build_text_line("en", "hallo", "x".repeat(200)).unwrap_err(),
        TranslationError::new(
            TranslationErrorKind::Rejected,
            "translation expanded far beyond source length"
        )
    );
}

#[test]
fn html_lines_keep_inline_html() {
    assert_eq!(
        build_html_line("en", "hallo", "<p><b>hello</b></p>".to_owned()),
        Ok(TranslatedLine {
            target: "en".to_owned(),
            plain: "hello".to_owned(),
            html: "<b>hello</b>".to_owned(),
        })
    );
    assert_eq!(
        build_html_line("en", "hallo", "<p></p>".to_owned()).unwrap_err().kind,
        TranslationErrorKind::Empty
    );
    assert_eq!(
        build_html_line("en", "hallo", "<p>&lt;|x&gt;</p>".to_owned()).unwrap_err().detail,
        "translation contains backend control token"
    );
}

#[test]
fn line_follows_the_rejection() {
    let rejected = line_given_rejection("en", "a".to_owned(), "b".to_owned(), Some("why"));
    assert_eq!(
        rejected,
        Err(TranslationError::new(TranslationErrorKind::Rejected, "why"))
    );
    assert!(line_given_rejection("en", "a".to_owned(), "b".to_owned(), None).is_ok());
}

use translate_bot::batch::{TargetTranslationFailure, TranslationBatchFailure};
use translate_bot::error::{TranslationError, TranslationErrorKind};
use translate_bot::interval::Interval;
use translate_bot::outcome::{now_secs, secs_or_zero, DbEventOutcome, EventOutcome};
use translate_bot::record::{
    failed_targets_text, log_suppressed_translation, record_skip, record_translated, Subject,
};
use translate_bot::skip::SkipReason;
use translate_bot::stats::{Stats, EVENT_OUTCOME_HISTORY};

#[test]
fn stats_record_skip_increments_reason_counter() {
    let mut stats = Stats::new();
    stats.record_skip(SkipReason::BelowConfidence);
    stats.record_skip(SkipReason::BelowConfidence);
    stats.record_skip(SkipReason::Backlog);
    let snapshot = stats.skipped_snapshot();
    assert_eq!(
        snapshot
            .iter()
            .find(|(reason, _)| *reason == "below_confidence")
            .map(|(_, count)| *count),
        Some(2)
    );
    assert_eq!(
        snapshot
            .iter()
            .find(|(reason, _)| *reason == "backlog")
            .map(|(_, count)| *count),
        Some(1)
    );
}

#[test]
fn snapshot_lists_by_count_and_then_by_name() {
    let mut stats = Stats::new();
    for reason in [
        SkipReason::RoomNotJoined,
        SkipReason::NoCaption,
        SkipReason::NoCaption,
        SkipReason::Backlog,
        SkipReason::NoRemainingTargets,
        SkipReason::EmptyText,
        SkipReason::EmptyText,
    ] {
        stats.record_skip(reason);
    }
    assert_eq!(
        stats.skipped_snapshot(),
        vec![
            ("empty_text", 2),
            ("no_caption", 2),
            ("backlog", 1),
            ("no_remaining_targets", 1),
            ("room_not_joined", 1),
        ]
    );
    assert!(Stats::new().skipped_snapshot().is_empty());
}

#[test]
fn skip_reasons_have_their_names() {
    let named = [
        (SkipReason::Backlog, "backlog"),
        (SkipReason::RoomNotJoined, "room_not_joined"),
        (SkipReason::UnsupportedMsgtype, "unsupported_msgtype"),
        (SkipReason::NoCaption, "no_caption"),
        (SkipReason::EmptyText, "empty_text"),
        (SkipReason::InputTooLong, "input_too_long"),
        (SkipReason::LangDetectFailed, "lang_detect_failed"),
        (SkipReason::BelowConfidence, "below_confidence"),
        (SkipReason::LanguageNotConfigured, "language_not_configured"),
        (SkipReason::NoRemainingTargets, "no_remaining_targets"),
        (SkipReason::TranslationSuppressed, "translation_suppressed"),
        (SkipReason::DecryptFailed, "decrypt_failed"),
        (SkipReason::EditUnknownEvent, "edit_unknown_event"),
        (SkipReason::EditNoTranslatableText, "edit_no_translatable_text"),
        (SkipReason::AlreadyTranslated, "already_translated"),
    ];
    for (reason, name) in named {
        assert_eq!(reason.as_str(), name);
    }
}

fn test_outcome(event_id: &str) -> EventOutcome {
    EventOutcome {
        event_id: event_id.to_owned(),
        room_id: "!room:example.org".to_owned(),
        sender: None,
        msgtype: "m.text".to_owned(),
        text_source: "body",
        decision: "skip",
        reason: Some("below_confidence"),
        source_lang: None,
        targets: None,
        matrix_send: None,
        duration_ms: None,
        at: Some(now_secs() as u64),
    }
}

#[test]
fn stats_ring_buffer_evicts_oldest_beyond_capacity() {
    let mut stats = Stats::new();
    for i in 0..(EVENT_OUTCOME_HISTORY + 5) {
        stats.push_outcome(test_outcome(&format!("$ev{i}:example.org")));
    }
    assert!(stats.find_outcome_in_memory("$ev0:example.org").is_none());
    assert!(stats.find_outcome_in_memory("$ev4:example.org").is_none());
    assert!(stats
        .find_outcome_in_memory(&format!("$ev{}:example.org", EVENT_OUTCOME_HISTORY + 4))
        .is_some());
    assert!(stats.find_outcome_in_memory("$ev5:example.org").is_some());
    assert_eq!(stats.recent.len(), EVENT_OUTCOME_HISTORY);
}

#[test]
fn stats_find_outcome_returns_most_recent_match() {
    let mut stats = Stats::new();
    let mut first = test_outcome("$dup:example.org");
    first.decision = "skip";
    stats.push_outcome(first);
    let mut second = test_outcome("$dup:example.org");
    second.decision = "translate";
    stats.push_outcome(second);

    let found = stats.find_outcome_in_memory("$dup:example.org").unwrap();
    assert_eq!(found.decision, "translate");
}

#[test]
fn find_outcome_prefers_memory_to_the_store() {
    let mut stats = Stats::new();
    let row = stats.push_outcome(test_outcome("$a:example.org"));
    let mut stored = row.clone();
    stored.decision = "error".to_owned();
    let found = stats.find_outcome("$a:example.org", Some(stored.clone())).unwrap();
    assert_eq!(found.decision, "skip");
    let found = stats.find_outcome("$b:example.org", Some(stored)).unwrap();
    assert_eq!(found.decision, "error");
    assert!(stats.find_outcome("$b:example.org", None).is_none());
}

#[test]
fn rows_carry_the_outcome() {
    let row = DbEventOutcome::from(&EventOutcome {
        event_id: "$e".to_owned(),
        room_id: "!r".to_owned(),
        sender: Some("@s:x".to_owned()),
        msgtype: "m.text".to_owned(),
        text_source: "body",
        decision: "translate",
        reason: None,
        source_lang: Some("de".to_owned()),
        targets: Some("en,uk".to_owned()),
        matrix_send: Some("ok"),
        duration_ms: Some(1234),
        at: Some(99),
    });
    assert_eq!(row.event_id, "$e");
    assert_eq!(row.sender.as_deref(), Some("@s:x"));
    assert_eq!(row.text_source, "body");
    assert_eq!(row.reason, None);
    assert_eq!(row.matrix_send.as_deref(), Some("ok"));
    assert_eq!(row.duration_ms, Some(1234));
    assert_eq!(row.at, 99);
    assert_eq!(secs_or_zero(None), 0);
}

#[test]
fn the_clock_is_past_the_epoch() {
    assert!(now_secs() > 1_600_000_000);
}

fn subject(sender: Option<&str>) -> Subject {
    Subject {
        event_id: "$e:example.org".to_owned(),
        room_id: "!r:example.org".to_owned(),
        sender: sender.map(str::to_owned),
        msgtype: "m.text".to_owned(),
        text_source: "body",
    }
}

#[test]
fn skips_are_noted() {
    let mut stats = Stats::new();
    let row = record_skip(
        &mut stats,
        &subject(Some("@a:example.org")),
        SkipReason::EmptyText,
        Some(7),
    );
    assert_eq!(row.decision, "skip");
    assert_eq!(row.reason.as_deref(), Some("empty_text"));
    assert_eq!(row.sender.as_deref(), Some("@a:example.org"));
    assert_eq!(row.at, 7);
    assert_eq!(stats.skipped_snapshot(), vec![("empty_text", 1)]);
    assert!(stats.find_outcome_in_memory("$e:example.org").is_some());
}

#[test]
fn translations_are_noted() {
    let mut stats = Stats::new();
    let targets = vec!["en".to_owned(), "uk".to_owned()];
    let row = record_translated(
        &mut stats,
        &subject(None),
        "de",
        &targets,
        true,
        Interval::from_millis(1500),
        Some(7),
    );
    assert_eq!(row.decision, "translate");
    assert_eq!(row.sender.as_deref(), Some("-"));
    assert_eq!(row.targets.as_deref(), Some("en,uk"));
    assert_eq!(row.matrix_send.as_deref(), Some("ok"));
    assert_eq!(row.duration_ms, Some(1500));
    assert_eq!((stats.translated, stats.matrix_send_failures), (1, 0));
    let row = record_translated(
        &mut stats,
        &subject(Some("@a:x")),
        "de",
        &targets,
        false,
        Interval::from_millis(1),
        None,
    );
    assert_eq!(row.sender.as_deref(), Some("@a:x"));
    assert_eq!(row.matrix_send.as_deref(), Some("failed"));
    assert_eq!((stats.translated, stats.matrix_send_failures), (2, 1));
}

#[test]
fn suppressions_are_noted() {
    let failed = |target: &str, attempts, kind, detail| TargetTranslationFailure {
        target: target.to_owned(),
        attempts,
        error: TranslationError::new(kind, detail),
    };
    let failure = TranslationBatchFailure {
        source: "de".to_owned(),
        context: "image",
        failed_targets: vec![
            failed("en", 3, TranslationErrorKind::BackendBusy, "busy"),
            failed("uk", 1, TranslationErrorKind::Rejected, "loop"),
        ],
        suppressed: true,
    };
    assert_eq!(
        failed_targets_text(&failure.failed_targets),
        "en attempts=3 class=backend_busy detail=busy; \
         uk attempts=1 class=validation_rejected detail=loop"
    );
    let mut stats = Stats::new();
    let row = log_suppressed_translation(&mut stats, &failure, "!r", "$e", Some(5));
    assert_eq!(row.decision, "error");
    assert_eq!(row.msgtype, "image");
    assert_eq!(row.text_source, "image");
    assert_eq!(row.reason.as_deref(), Some("translation_suppressed"));
    assert_eq!(row.source_lang.as_deref(), Some("de"));
    assert_eq!(row.targets.as_deref(), Some("en,uk"));
    assert_eq!(row.sender, None);
    assert_eq!(stats.translation_api_failures, 2);
    assert_eq!(stats.skipped_snapshot(), vec![("translation_suppressed", 1)]);
}

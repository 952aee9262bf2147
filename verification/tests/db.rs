use translate_bot::db::{
    outcomes_beyond_retention, Db, TranslationRow, EVENT_OUTCOMES_RETENTION,
    TRANSLATIONS_MAX_AGE_SECS, TRANSLATIONS_ROW_CAP,
};
use translate_bot::outcome::{now_secs, DbEventOutcome};

#[test]
fn translation_round_trip() {
    let mut db = Db::open_in_memory();
    assert_eq!(db.lookup_translation("$a:example.org"), None);

    db.record_translation(
        "$a:example.org",
        "$bot1:example.org",
        "!room:example.org",
        now_secs(),
    );
    assert_eq!(
        db.lookup_translation("$a:example.org"),
        Some("$bot1:example.org".to_owned())
    );

    // Re-recording (e.g. a retry) updates in place rather than erroring.
    db.record_translation(
        "$a:example.org",
        "$bot2:example.org",
        "!room:example.org",
        now_secs(),
    );
    assert_eq!(
        db.lookup_translation("$a:example.org"),
        Some("$bot2:example.org".to_owned())
    );

    db.remove_translation("$a:example.org");
    assert_eq!(db.lookup_translation("$a:example.org"), None);
}

#[test]
fn translations_retention_prunes_oldest() {
    let mut db = Db::open_in_memory();
    for i in 0..5 {
        db.record_translation(
            &format!("$ev{i}:example.org"),
            &format!("$bot{i}:example.org"),
            "!room:example.org",
            now_secs(),
        );
    }
    // All 5 are well under the real cap, so all should still be present.
    for i in 0..5 {
        assert!(db
            .lookup_translation(&format!("$ev{i}:example.org"))
            .is_some());
    }
}

fn base() -> DbEventOutcome {
    DbEventOutcome {
        event_id: "$ev:example.org".to_owned(),
        room_id: "!room:example.org".to_owned(),
        sender: Some("@alice:example.org".to_owned()),
        msgtype: "m.text".to_owned(),
        text_source: "body".to_owned(),
        decision: "skip".to_owned(),
        reason: Some("below_confidence".to_owned()),
        source_lang: None,
        targets: None,
        matrix_send: None,
        duration_ms: None,
        at: now_secs(),
    }
}

#[test]
fn event_outcome_round_trip_and_most_recent_wins() {
    let mut db = Db::open_in_memory();
    assert!(db.find_outcome("$ev:example.org").is_none());

    let base = base();
    db.push_outcome(base.clone());

    let mut second = base.clone();
    second.decision = "translate".to_owned();
    second.reason = None;
    db.push_outcome(second);

    let found = db.find_outcome("$ev:example.org").unwrap();
    assert_eq!(found.decision, "translate");
    assert_eq!(found.reason, None);
    assert_eq!(found.sender.as_deref(), Some("@alice:example.org"));
}

fn row(event: &str, created_at: i64) -> TranslationRow {
    TranslationRow {
        original_event_id: event.to_owned(),
        bot_event_id: "$bot1:example.org".to_owned(),
        room_id: "!room:example.org".to_owned(),
        created_at,
    }
}

#[test]
fn translations_age_retention_prunes_old_rows_not_recent_ones() {
    let old = now_secs() - TRANSLATIONS_MAX_AGE_SECS - 1;
    let mut db = Db::from_rows(vec![row("$old:example.org", old)], vec![]).unwrap();
    assert!(db.lookup_translation("$old:example.org").is_some());

    // Any subsequent write runs the prune pass.
    let left = db.record_translation(
        "$new:example.org",
        "$bot2:example.org",
        "!room:example.org",
        now_secs(),
    );

    assert_eq!(left, vec!["$old:example.org"]);
    assert_eq!(db.lookup_translation("$old:example.org"), None);
    assert_eq!(
        db.lookup_translation("$new:example.org"),
        Some("$bot2:example.org".to_owned())
    );
}

#[test]
fn a_row_of_exactly_the_age_limit_stays() {
    let now = 2_000_000_000;
    let mut db =
        Db::from_rows(vec![row("$edge", now - TRANSLATIONS_MAX_AGE_SECS)], vec![]).unwrap();
    assert!(db.record_translation("$new", "$b", "!r", now).is_empty());
    assert!(db.lookup_translation("$edge").is_some());
    assert_eq!(TRANSLATIONS_MAX_AGE_SECS, 180 * 24 * 60 * 60);
}

#[test]
fn recording_again_keeps_the_age() {
    let now = 2_000_000_000;
    let old = now - TRANSLATIONS_MAX_AGE_SECS - 1;
    let mut db = Db::from_rows(vec![row("$old", old), row("$x", now)], vec![]).unwrap();
    // The row is updated in place, keeps its age and leaves at once.
    assert_eq!(db.record_translation("$old", "$b2", "!r", now), vec!["$old"]);
    assert_eq!(db.lookup_translation("$old"), None);
    assert!(db.lookup_translation("$x").is_some());
}

#[test]
fn an_event_has_one_row() {
    assert!(Db::from_rows(vec![row("$a", 1), row("$b", 2), row("$a", 3)], vec![]).is_none());
    assert!(Db::from_rows(vec![row("$a", 1), row("$b", 2)], vec![]).is_some());
}

#[test]
fn removing_leaves_the_others() {
    let mut db = Db::from_rows(vec![row("$a", 1), row("$b", 2), row("$c", 3)], vec![]).unwrap();
    db.remove_translation("$b");
    db.remove_translation("$b");
    assert!(db.lookup_translation("$a").is_some());
    assert!(db.lookup_translation("$b").is_none());
    assert!(db.lookup_translation("$c").is_some());
}

#[test]
fn outcomes_are_kept_up_to_the_retention() {
    let mut db = Db::open_in_memory();
    for i in 0..EVENT_OUTCOMES_RETENTION {
        let mut outcome = base();
        outcome.event_id = format!("$ev{i}");
        assert_eq!(db.push_outcome(outcome), 0);
    }
    assert!(db.find_outcome("$ev0").is_some());
    let mut outcome = base();
    outcome.event_id = "$last".to_owned();
    assert_eq!(db.push_outcome(outcome), 1);
    assert!(db.find_outcome("$ev0").is_none());
    assert!(db.find_outcome("$ev1").is_some());
    assert!(db.find_outcome("$last").is_some());
    assert_eq!(outcomes_beyond_retention(5_000), 0);
    assert_eq!(outcomes_beyond_retention(5_003), 3);
}

#[test]
fn a_full_table_drops_its_oldest_row() {
    let now = 2_000_000_000;
    let mut rows: Vec<TranslationRow> =
        (0..TRANSLATIONS_ROW_CAP).map(|i| row(&format!("$ev{i}"), now)).collect();
    rows[7].created_at = now - 10;
    rows[9].created_at = now - 10;
    let mut db = Db::from_rows(rows, vec![]).unwrap();
    assert_eq!(db.record_translation("$new", "$b", "!r", now), vec!["$ev7"]);
    assert_eq!(db.lookup_translation("$new"), Some("$b".to_owned()));
    assert!(db.lookup_translation("$ev7").is_none());
    assert!(db.lookup_translation("$ev9").is_some());
}

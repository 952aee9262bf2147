use translate_bot::db::Db;
use translate_bot::outcome::now_secs;
use translate_bot::pending::{after_first_lookup, AwaitStep, PendingMap};
use translate_bot::db::Lookup;

fn test_pending() -> PendingMap<u32> {
    PendingMap::new()
}

/// What a lookup comes to; `meanwhile` happens where it waits.
fn lookup_translation_awaiting_pending(
    db: &mut Db,
    pending: &PendingMap<u32>,
    event_id: &str,
    meanwhile: impl FnOnce(&mut Db),
) -> (Lookup, bool) {
    let in_flight = pending.get(event_id).is_some();
    match after_first_lookup(Ok(db.lookup_translation(event_id)), in_flight) {
        AwaitStep::Resolved(answer) => (answer, false),
        AwaitStep::Wait => {
            meanwhile(db);
            (Ok(db.lookup_translation(event_id)), true)
        }
    }
}

fn record(db: &mut Db) {
    db.record_translation(
        "$orig:example.org",
        "$bot:example.org",
        "!room:example.org",
        now_secs(),
    );
}

#[test]
fn pending_guard_removes_entry_on_drop_and_wakes_a_waiter() {
    let mut pending = test_pending();
    let event_id = "$orig:example.org";
    assert!(pending.get(event_id).is_none());
    pending.mark_pending(event_id, 1);
    assert!(pending.get(event_id).is_some());
    assert_eq!(pending.release(event_id), Some(1));
    assert!(pending.get(event_id).is_none());
}

#[test]
fn marking_again_replaces_the_handle() {
    let mut pending = test_pending();
    pending.mark_pending("$a", 1);
    pending.mark_pending("$b", 2);
    pending.mark_pending("$a", 3);
    assert_eq!(pending.get("$a"), Some(&3));
    assert_eq!(pending.release("$b"), Some(2));
    assert_eq!(pending.release("$b"), None);
    assert_eq!(pending.release("$a"), Some(3));
}

#[test]
fn lookup_translation_awaiting_pending_hits_immediately_when_already_recorded() {
    let mut db = Db::open_in_memory();
    let pending = test_pending();
    record(&mut db);

    let (found, waited) =
        lookup_translation_awaiting_pending(&mut db, &pending, "$orig:example.org", |_| {});
    assert_eq!(found, Ok(Some("$bot:example.org".to_owned())));
    assert!(!waited);
}

#[test]
fn lookup_translation_awaiting_pending_returns_none_fast_with_no_pending_and_no_row() {
    // A genuinely unmapped event (e.g. never translated, or old enough to have
    // been pruned) is answered at once.
    let mut db = Db::open_in_memory();
    let pending = test_pending();

    let (found, waited) =
        lookup_translation_awaiting_pending(&mut db, &pending, "$never-seen:example.org", |_| {});
    assert_eq!(found, Ok(None));
    assert!(!waited);
}

#[test]
fn lookup_translation_awaiting_pending_waits_for_in_flight_translation_to_land() {
    let mut db = Db::open_in_memory();
    let mut pending = test_pending();
    let original = "$orig:example.org";
    pending.mark_pending(original, 7);

    let (found, waited) =
        lookup_translation_awaiting_pending(&mut db, &pending, original, record);
    assert_eq!(found, Ok(Some("$bot:example.org".to_owned())));
    assert!(waited);
}

#[test]
fn lookup_translation_awaiting_pending_returns_none_promptly_when_original_was_skipped() {
    // The original message finishes without ever being recorded.
    let mut db = Db::open_in_memory();
    let mut pending = test_pending();
    let original = "$orig:example.org";
    pending.mark_pending(original, 7);

    let (found, waited) = lookup_translation_awaiting_pending(&mut db, &pending, original, |_| {});
    assert_eq!(found, Ok(None));
    assert!(waited);
}

#[test]
fn lookup_translation_awaiting_pending_unrelated_event_is_unaffected() {
    let mut db = Db::open_in_memory();
    let mut pending = test_pending();
    pending.mark_pending("$unrelated:example.org", 7);

    let (found, waited) =
        lookup_translation_awaiting_pending(&mut db, &pending, "$orig:example.org", record);
    assert_eq!(found, Ok(None));
    assert!(!waited);
}

#[test]
fn a_failed_lookup_is_not_waited_upon() {
    match after_first_lookup(Err("disk".to_owned()), true) {
        AwaitStep::Resolved(answer) => assert_eq!(answer, Err("disk".to_owned())),
        AwaitStep::Wait => panic!("expected the failure"),
    }
}

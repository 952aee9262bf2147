use translate_bot::dispatch::{
    accepts_inviter, backend_url, decide_invitation, dispatch_message, endpoint, join_pending_via,
    join_via, note_undecryptable, plan_join, plan_pending_join, read_user_lists, skip_if_backlog,
    verification_limits, Dispatch, Invitation,
};
use translate_bot::ids::user_server_name;
use translate_bot::interval::Interval;
use translate_bot::message::{MessageEvent, MessageType, TextBody};
use translate_bot::stats::Stats;

const BOT: &str = "@bot:example.org";

fn event(sender: &str, msgtype: MessageType) -> MessageEvent {
    MessageEvent {
        event_id: "$e:example.org".to_owned(),
        room_id: "!r:example.org".to_owned(),
        sender: sender.to_owned(),
        msgtype,
        relates_to: None,
    }
}

fn text() -> MessageType {
    MessageType::Text(TextBody { body: "hi".to_owned(), formatted: None })
}

fn list(users: &[&str]) -> Vec<String> {
    users.iter().map(|u| u.to_string()).collect()
}

#[test]
fn messages_are_dispatched() {
    let mut stats = Stats::new();
    let request = event("@a:x", MessageType::VerificationRequest);
    assert!(matches!(
        dispatch_message(&request, BOT, true, &mut stats, None),
        Dispatch::Ignore
    ));
    assert!(matches!(
        dispatch_message(&event(BOT, text()), BOT, true, &mut stats, None),
        Dispatch::Ignore
    ));
    assert_eq!(stats.events_seen, 0);
    assert!(matches!(
        dispatch_message(&event("@a:x", text()), BOT, true, &mut stats, None),
        Dispatch::Handle
    ));
    assert_eq!(stats.events_seen, 1);
    match dispatch_message(&event("@a:x", text()), BOT, false, &mut stats, Some(3)) {
        Dispatch::Skipped(row) => {
            assert_eq!(row.reason.as_deref(), Some("room_not_joined"));
            assert_eq!(row.msgtype, "m.text");
            assert_eq!(row.text_source, "n/a");
            assert_eq!(row.sender.as_deref(), Some("@a:x"));
        }
        _ => panic!("expected a skip"),
    }
    assert_eq!(stats.events_seen, 2);
}

#[test]
fn backlog_is_skipped() {
    let mut stats = Stats::new();
    let ev = event("@a:x", text());
    let at = |ms| Some(Interval::from_millis(ms));
    assert!(skip_if_backlog(&ev, at(1000), at(1000), &mut stats, None).is_none());
    assert!(skip_if_backlog(&ev, at(1001), at(1000), &mut stats, None).is_none());
    assert!(skip_if_backlog(&ev, None, at(1000), &mut stats, None).is_none());
    assert!(skip_if_backlog(&ev, at(1), None, &mut stats, None).is_none());
    let row = skip_if_backlog(&ev, at(999), at(1000), &mut stats, None).unwrap();
    assert_eq!(row.reason.as_deref(), Some("backlog"));
    assert_eq!(stats.skipped_snapshot(), vec![("backlog", 1)]);
}

#[test]
fn undecryptable_events_are_noted() {
    let mut stats = Stats::new();
    assert!(note_undecryptable("$e", "!r", BOT, BOT, &mut stats, None).is_none());
    assert_eq!(stats.decrypt_failures, 0);
    let row = note_undecryptable("$e", "!r", "@a:x", BOT, &mut stats, None).unwrap();
    assert_eq!(row.msgtype, "m.room.encrypted");
    assert_eq!(row.reason.as_deref(), Some("decrypt_failed"));
    assert_eq!(stats.decrypt_failures, 1);
}

#[test]
fn invitations_go_by_the_list() {
    let nobody = list(&[]);
    let alice = list(&["@alice:x"]);
    assert!(accepts_inviter(&nobody, "@mallory:x"));
    assert!(accepts_inviter(&alice, "@alice:x"));
    assert!(!accepts_inviter(&alice, "@mallory:x"));
    assert_eq!(decide_invitation("@c:x", BOT, &nobody, "@alice:x"), Invitation::NotForUs);
    assert_eq!(decide_invitation(BOT, BOT, &alice, "@alice:x"), Invitation::Accept);
    assert_eq!(decide_invitation(BOT, BOT, &alice, "@mallory:x"), Invitation::Reject);
}

#[test]
fn rooms_are_joined_through_known_servers() {
    let some = |s: &str| Some(s.to_owned());
    assert_eq!(join_via("a.org", &some("b.org")), vec!["a.org", "b.org"]);
    assert_eq!(join_via("a.org", &some("a.org")), vec!["a.org"]);
    assert_eq!(join_via("a.org", &None), vec!["a.org"]);
    assert_eq!(join_pending_via(&some("b.org")), vec!["b.org"]);
    assert!(join_pending_via(&None).is_empty());
}

#[test]
fn joins_are_planned() {
    let plan = plan_join("@alice:a.org", "!room:b.org").unwrap();
    assert_eq!(plan.room, "!room:b.org");
    assert_eq!(plan.via, vec!["a.org", "b.org"]);
    assert_eq!(plan_join("@alice:a.org:8448", "!opaque").unwrap().via, vec!["a.org:8448"]);
    assert_eq!(
        plan_join("@alice:a.org", "nonsense").err().unwrap(),
        "leading sigil is incorrect or missing"
    );
    assert_eq!(plan_pending_join("!room:b.org").unwrap().via, vec!["b.org"]);
    assert!(plan_pending_join("!opaque").unwrap().via.is_empty());
    assert!(plan_pending_join("").is_err());
    assert_eq!(user_server_name("@alice:a.org:8448"), "a.org:8448");
}

#[test]
fn verification_limits_are_at_least_one() {
    let limits = verification_limits(0, 0, 0);
    assert_eq!(limits.flow_timeout, Interval::from_secs(1));
    assert_eq!(limits.grant_ttl, Interval::from_secs(1));
    assert_eq!(limits.max_concurrent, 1);
    let limits = verification_limits(300, 600, 8);
    assert_eq!(limits.flow_timeout, Interval::from_secs(300));
    assert_eq!(limits.grant_ttl, Interval::from_secs(600));
    assert_eq!(limits.max_concurrent, 8);
}

#[test]
fn user_lists_drop_what_is_no_user_id() {
    let lists = read_user_lists(
        &list(&["@admin:x.org", "not a user", "!room:x.org"]),
        &list(&["alice", "@alice:x.org"]),
        &list(&["bogus"]),
    );
    assert_eq!(lists.admin_users, vec!["@admin:x.org"]);
    assert_eq!(lists.allowed_inviters, vec!["@alice:x.org"]);
    // Without valid entries of their own, those who may invite may verify.
    assert_eq!(lists.verification_users, vec!["@alice:x.org"]);
    let lists = read_user_lists(&list(&[]), &list(&["@a:x.org"]), &list(&["@v:x.org"]));
    assert_eq!(lists.verification_users, vec!["@v:x.org"]);
}

#[test]
fn backend_addresses() {
    assert_eq!(backend_url("http://lt:5000//"), "http://lt:5000");
    assert_eq!(backend_url("http://lt:5000"), "http://lt:5000");
    assert_eq!(endpoint("http://lt:5000", "detect"), "http://lt:5000/detect");
}

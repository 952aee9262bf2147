use translate_bot::rerun::{
    advance_retry, refuse_retry, retry_answer, start_retry, start_retry_given,
    translate_retry_command, Fetched, RetryAction, RetryReply, RetryState,
};
use translate_bot::stats::Stats;

#[test]
fn retry_starts_with_an_event_id() {
    assert_eq!(start_retry(""), Err("Usage: !translate retry <event-id>".to_owned()));
    assert_eq!(start_retry("$e:example.org"), Ok("$e:example.org".to_owned()));
    assert_eq!(start_retry("$opaque"), Ok("$opaque".to_owned()));
    assert_eq!(
        start_retry("nope"),
        Err("'nope' is not a valid event ID: leading sigil is incorrect or missing".to_owned())
    );
    assert_eq!(
        start_retry_given("nope", Err("why".to_owned())),
        Err("'nope' is not a valid event ID: why".to_owned())
    );
}

#[test]
fn retry_refuses_what_was_translated() {
    let mut stats = Stats::new();
    let (refusal, row) = refuse_retry("$e", "!r", &Ok(None), &mut stats, None);
    assert!(refusal.is_none() && row.is_none());
    let (refusal, row) =
        refuse_retry("$e", "!r", &Err("disk".to_owned()), &mut stats, None);
    assert_eq!(
        refusal.unwrap(),
        "Could not check existing translations for $e: disk"
    );
    assert!(row.is_none());
    assert!(stats.skipped_snapshot().is_empty());
    let (refusal, row) =
        refuse_retry("$e", "!r", &Ok(Some("$b".to_owned())), &mut stats, Some(3));
    assert_eq!(
        refusal.unwrap(),
        "$e was already translated as $b — edit the original message if you want to force a \
         re-translation."
    );
    let row = row.unwrap();
    assert_eq!(row.reason.as_deref(), Some("already_translated"));
    assert_eq!((row.msgtype.as_str(), row.text_source.as_str()), ("n/a", "n/a"));
    assert_eq!(stats.skipped_snapshot(), vec![("already_translated", 1)]);
}

#[test]
fn retry_answers() {
    assert_eq!(
        retry_answer("$e", &Fetched::Message),
        "Retried $e — run `!translate debug $e` for the outcome."
    );
    assert_eq!(
        retry_answer("$e", &Fetched::Missing("404".to_owned())),
        "Could not fetch $e: 404"
    );
    assert_eq!(
        retry_answer("$e", &Fetched::Undecryptable),
        "$e is still not decryptable — no key available for it."
    );
    assert_eq!(
        retry_answer("$e", &Fetched::NotAMessage("bad".to_owned())),
        "$e is not a room message: bad"
    );
}

#[test]
fn retry_looks_up_fetches_and_handles() {
    let mut stats = Stats::new();
    let (state, action) = translate_retry_command("$e:example.org");
    assert!(matches!(&action, RetryAction::Lookup { event_id } if event_id == "$e:example.org"));
    let step = advance_retry(state, RetryReply::Found(Ok(None)), "!r", &mut stats, None);
    assert!(matches!(&step.action, RetryAction::Fetch { event_id } if event_id == "$e:example.org"));
    assert!(step.row.is_none());
    let step = advance_retry(
        step.state,
        RetryReply::Fetched(Fetched::Message),
        "!r",
        &mut stats,
        None,
    );
    assert!(matches!(step.action, RetryAction::Handle));
    let step = advance_retry(step.state, RetryReply::Handled, "!r", &mut stats, None);
    assert!(matches!(step.state, RetryState::Done));
    assert!(matches!(
        step.action,
        RetryAction::Answer(text) if text
            == "Retried $e:example.org — run `!translate debug $e:example.org` for the outcome."
    ));
    assert!(stats.skipped_snapshot().is_empty());
}

#[test]
fn retry_stops_where_it_cannot_go_on() {
    let mut stats = Stats::new();
    let (state, action) = translate_retry_command("");
    assert!(matches!(state, RetryState::Done));
    assert!(matches!(
        action,
        RetryAction::Answer(text) if text == "Usage: !translate retry <event-id>"
    ));

    let (state, _) = translate_retry_command("$e");
    let found = RetryReply::Found(Ok(Some("$b".to_owned())));
    let step = advance_retry(state, found, "!r", &mut stats, Some(3));
    assert!(matches!(step.state, RetryState::Done));
    assert!(matches!(step.action, RetryAction::Answer(_)));
    assert_eq!(step.row.unwrap().event_id, "$e");
    assert_eq!(stats.skipped_snapshot(), vec![("already_translated", 1)]);

    let (state, _) = translate_retry_command("$e");
    let step = advance_retry(state, RetryReply::Found(Ok(None)), "!r", &mut stats, None);
    let gone = RetryReply::Fetched(Fetched::Missing("404".to_owned()));
    let step = advance_retry(step.state, gone, "!r", &mut stats, None);
    assert!(matches!(step.state, RetryState::Done));
    assert!(matches!(
        step.action,
        RetryAction::Answer(text) if text == "Could not fetch $e: 404"
    ));
}

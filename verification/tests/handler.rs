use translate_bot::batch::{TargetTranslationFailure, TranslatedLine, TranslationBatchFailure};
use translate_bot::commands::{CommandAction, Report};
use translate_bot::config::{RoomTranslationConfig, RoomTranslations, TranslationConfig};
use translate_bot::error::{TranslationError, TranslationErrorKind};
use translate_bot::handler::{advance, handle_message_core, Action, Reply, Settings, State, Step};
use translate_bot::interval::Interval;
use translate_bot::message::{
    FormattedBody, Media, MessageEvent, MessageType, Relation, TextBody,
};
use translate_bot::pipeline::{follow_redaction, skip_if_translated};
use translate_bot::retry::TranslationInput;
use translate_bot::stats::Stats;
use translate_bot::targets::DetectResult;

const ADMIN: &str = "@admin:example.org";

fn settings() -> Settings<f64> {
    let mut translation = TranslationConfig::default(0.5);
    translation.langs = vec!["en".to_owned(), "de".to_owned(), "uk".to_owned()];
    translation.max_input_chars = 20;
    Settings {
        translation,
        room_translations: RoomTranslations::new(),
        admin_users: vec![ADMIN.to_owned()],
    }
}

fn event(msgtype: MessageType, relates_to: Option<Relation>) -> MessageEvent {
    MessageEvent {
        event_id: "$e:example.org".to_owned(),
        room_id: "!r:example.org".to_owned(),
        sender: "@alice:example.org".to_owned(),
        msgtype,
        relates_to,
    }
}

fn text(body: &str) -> MessageType {
    MessageType::Text(TextBody { body: body.to_owned(), formatted: None })
}

fn image(body: &str, filename: &str) -> MessageType {
    MessageType::Image(Media { body: body.to_owned(), filename: Some(filename.to_owned()) })
}

fn edit(new_content: MessageType) -> MessageEvent {
    event(
        text("* fallback"),
        Some(Relation::Replacement { event_id: "$orig:example.org".to_owned(), new_content }),
    )
}

struct Run {
    settings: Settings<f64>,
    stats: Stats,
}

impl Run {
    fn new() -> Run {
        Run { settings: settings(), stats: Stats::new() }
    }

    fn step(&mut self, state: State, reply: Reply<f64>) -> Step {
        advance(state, reply, &self.settings, &mut self.stats, Some(9))
    }

    /// Looks an event up that has no translation, and marks it.
    fn marked(&mut self, event: MessageEvent) -> Step {
        let (state, action) = handle_message_core(event);
        assert!(matches!(action, Action::Lookup { event_id } if event_id == "$e:example.org"));
        let step = self.step(state, Reply::Found(Ok(None)));
        assert!(matches!(
            step.action,
            Action::MarkPending { event_id } if event_id == "$e:example.org"
        ));
        assert!(step.row.is_none());
        self.step(step.state, Reply::Marked)
    }

    /// The reason for which an event is skipped, and its source of text.
    fn skipped(&mut self, event: MessageEvent) -> (String, String, String) {
        let step = self.marked(event);
        assert!(matches!(step.state, State::Done));
        assert!(matches!(step.action, Action::Finish));
        let row = step.row.expect("a skip leaves a row");
        assert_eq!(row.decision, "skip");
        (row.reason.unwrap(), row.msgtype, row.text_source)
    }
}

fn detected(language: &str, confidence: f64) -> Reply<f64> {
    Reply::Detected(Some(DetectResult { language: language.to_owned(), confidence }))
}

fn line(target: &str, plain: &str) -> TranslatedLine {
    TranslatedLine {
        target: target.to_owned(),
        plain: plain.to_owned(),
        html: format!("<i>{plain}</i>"),
    }
}

fn sent(event_id: Option<&str>) -> Reply<f64> {
    Reply::Sent {
        event_id: event_id.map(str::to_owned),
        duration: Interval::from_millis(42),
    }
}

#[test]
fn a_message_is_translated_sent_and_remembered() {
    let mut run = Run::new();
    let step = run.marked(event(text("  Guten Tag  "), None));
    assert!(matches!(step.action, Action::Detect { ref text } if text == "Guten Tag"));

    let step = run.step(step.state, detected("de", 0.9));
    match &step.action {
        Action::Translate { input, source, targets, context } => {
            assert!(matches!(input, TranslationInput::Text { plain } if plain == "Guten Tag"));
            assert_eq!(source, "de");
            assert_eq!(targets, &vec!["en".to_owned(), "uk".to_owned()]);
            assert_eq!(*context, "message");
        }
        _ => panic!("expected a translation"),
    }

    let lines = vec![line("en", "Good day"), line("uk", "Добрий день")];
    let step = run.step(step.state, Reply::Translated(Ok(lines)));
    match &step.action {
        Action::Send(content) => {
            match &content.msgtype {
                MessageType::Text(t) => {
                    assert_eq!(t.body, "🇬🇧 Good day\n🇺🇦 Добрий день");
                    assert_eq!(
                        t.formatted.as_ref().unwrap().body,
                        "🇬🇧 <i>Good day</i><br>\n🇺🇦 <i>Добрий день</i>"
                    );
                }
                _ => panic!("expected a text"),
            }
            assert!(matches!(
                &content.relates_to,
                Some(Relation::Thread { event_id, in_reply_to })
                    if event_id == "$e:example.org"
                        && in_reply_to.as_deref() == Some("$e:example.org")
            ));
        }
        _ => panic!("expected a message"),
    }

    let step = run.step(step.state, sent(Some("$bot:example.org")));
    match &step.action {
        Action::Remember(mapping) => {
            assert_eq!(mapping.original_event_id, "$e:example.org");
            assert_eq!(mapping.bot_event_id, "$bot:example.org");
            assert_eq!(mapping.room_id, "!r:example.org");
        }
        _ => panic!("expected a mapping"),
    }
    let row = step.row.unwrap();
    assert_eq!(row.decision, "translate");
    assert_eq!(row.sender.as_deref(), Some("@alice:example.org"));
    assert_eq!(row.msgtype, "m.text");
    assert_eq!(row.targets.as_deref(), Some("en,uk"));
    assert_eq!(row.matrix_send.as_deref(), Some("ok"));
    assert_eq!(row.duration_ms, Some(42));
    assert_eq!(run.stats.translated, 1);
    assert!(matches!(step.state, State::Done));
}

#[test]
fn a_message_that_cannot_be_sent_is_not_remembered() {
    let mut run = Run::new();
    let step = run.marked(event(text("Hallo"), None));
    let step = run.step(step.state, detected("de", 0.9));
    let step = run.step(step.state, Reply::Translated(Ok(vec![line("en", "Hello")])));
    let step = run.step(step.state, sent(None));
    assert!(matches!(step.action, Action::Finish));
    assert_eq!(step.row.unwrap().matrix_send.as_deref(), Some("failed"));
    assert_eq!(run.stats.matrix_send_failures, 1);
}

#[test]
fn a_translated_message_is_not_translated_again() {
    let mut run = Run::new();
    let (state, _) = handle_message_core(event(text("Hallo"), None));
    let step = run.step(state, Reply::Found(Ok(Some("$bot:example.org".to_owned()))));
    assert!(matches!(step.state, State::Done));
    assert!(matches!(step.action, Action::Finish));
    assert_eq!(step.row.unwrap().reason.as_deref(), Some("already_translated"));
    assert_eq!(run.stats.skipped_snapshot(), vec![("already_translated", 1)]);
}

#[test]
fn a_failed_lookup_does_not_stop_a_message() {
    let mut run = Run::new();
    let (state, _) = handle_message_core(event(text("Hallo"), None));
    let step = run.step(state, Reply::Found(Err("disk".to_owned())));
    assert!(matches!(step.action, Action::MarkPending { .. }));
    let ev = event(text("Hallo"), None);
    assert!(skip_if_translated(&ev, &Err("disk".to_owned()), &mut run.stats, None).is_none());
}

#[test]
fn html_goes_to_the_backend_without_its_reply_block() {
    let mut run = Run::new();
    let msgtype = MessageType::Emote(TextBody {
        body: "> <@b:x> quoted\n\nHallo".to_owned(),
        formatted: Some(FormattedBody {
            html: true,
            body: "<mx-reply>quoted</mx-reply><b>Hallo</b>".to_owned(),
        }),
    });
    let step = run.marked(event(msgtype, None));
    assert!(matches!(step.action, Action::Detect { ref text } if text == "Hallo"));
    let step = run.step(step.state, detected("de", 0.9));
    assert!(matches!(
        step.action,
        Action::Translate { input: TranslationInput::Html { html, plain }, .. }
            if html == "<b>Hallo</b>" && plain == "Hallo"
    ));
}

#[test]
fn html_that_is_too_long_is_not_submitted() {
    let formatted = |body: &str| {
        event(
            MessageType::Text(TextBody {
                body: "Hallo".to_owned(),
                formatted: Some(FormattedBody { html: true, body: body.to_owned() }),
            }),
            None,
        )
    };
    let html = format!("<b>{}</b>", "x".repeat(14));
    let mut run = Run::new();
    let (reason, msgtype, source) = run.skipped(formatted(&html));
    assert_eq!((reason.as_str(), msgtype.as_str(), source.as_str()), ("input_too_long", "m.text", "body"));
    assert_eq!(run.stats.skipped_snapshot(), vec![("input_too_long", 1)]);

    // The limit itself is fine, and the reply block does not count.
    let html = format!("<mx-reply>quoted</mx-reply><b>{}</b>", "ä".repeat(13));
    let step = Run::new().marked(formatted(&html));
    assert!(matches!(step.action, Action::Detect { .. }));
}

#[test]
fn another_format_counts_as_text() {
    let mut run = Run::new();
    let msgtype = MessageType::Text(TextBody {
        body: "Hallo".to_owned(),
        formatted: Some(FormattedBody { html: false, body: "<b>Hallo</b>".to_owned() }),
    });
    let step = run.marked(event(msgtype, None));
    let step = run.step(step.state, detected("de", 0.9));
    assert!(matches!(
        step.action,
        Action::Translate { input: TranslationInput::Text { .. }, .. }
    ));
}

#[test]
fn captions_are_translated() {
    let mut run = Run::new();
    let step = run.marked(event(image(" Eine Couch ", "1.jpg"), None));
    assert!(matches!(step.action, Action::Detect { ref text } if text == "Eine Couch"));
    let step = run.step(step.state, detected("de", 0.9));
    assert!(matches!(step.action, Action::Translate { context: "image", .. }));
    let step = run.step(step.state, Reply::Translated(Ok(vec![line("en", "A couch")])));
    let step = run.step(step.state, sent(Some("$bot")));
    let row = step.row.unwrap();
    assert_eq!(row.msgtype, "image");
    assert_eq!(row.text_source, "caption");
}

#[test]
fn messages_are_skipped_for_a_reason() {
    let reason = |r: &str, m: &str, s: &str| (r.to_owned(), m.to_owned(), s.to_owned());
    let long = "x".repeat(21);
    assert_eq!(
        Run::new().skipped(event(image("1.jpg", "1.jpg"), None)),
        reason("no_caption", "image", "caption")
    );
    assert_eq!(
        Run::new().skipped(event(image("  ", "1.jpg"), None)),
        reason("no_caption", "image", "caption")
    );
    assert_eq!(
        Run::new().skipped(event(image(&long, "1.jpg"), None)),
        reason("input_too_long", "image", "caption")
    );
    assert_eq!(
        Run::new().skipped(event(text("> quoted\n\n "), None)),
        reason("empty_text", "m.text", "body")
    );
    assert_eq!(
        Run::new().skipped(event(text(&long), None)),
        reason("input_too_long", "m.text", "body")
    );
    let notice = MessageType::Notice(TextBody { body: "Hallo".to_owned(), formatted: None });
    assert_eq!(
        Run::new().skipped(event(notice, None)),
        reason("unsupported_msgtype", "m.notice", "body")
    );
    assert_eq!(
        Run::new().skipped(event(MessageType::Other("m.location".to_owned()), None)),
        reason("unsupported_msgtype", "m.location", "body")
    );
    // A text of exactly the limit is not too long.
    let step = Run::new().marked(event(text(&"x".repeat(20)), None));
    assert!(matches!(step.action, Action::Detect { .. }));
}

#[test]
fn detections_can_end_a_message() {
    let mut ends = Vec::new();
    for reply in [
        Reply::Detected(None),
        detected("de", 0.49),
        detected("fr", 0.9),
    ] {
        let mut run = Run::new();
        let step = run.marked(event(text("Hallo"), None));
        let step = run.step(step.state, reply);
        assert!(matches!(step.action, Action::Finish));
        ends.push(step.row.unwrap().reason.unwrap());
    }
    assert_eq!(
        ends,
        vec!["lang_detect_failed", "below_confidence", "language_not_configured"]
    );
}

#[test]
fn rooms_have_their_own_settings() {
    let mut run = Run::new();
    run.settings.room_translations.insert(
        "!r:example.org".to_owned(),
        RoomTranslationConfig {
            langs: Some(vec!["de".to_owned()]),
            min_confidence: Some(0.1),
            ..Default::default()
        },
    );
    let step = run.marked(event(text("Hallo"), None));
    let step = run.step(step.state, detected("de", 0.2));
    assert_eq!(step.row.unwrap().reason.as_deref(), Some("no_remaining_targets"));
}

#[test]
fn a_failed_batch_sends_nothing() {
    let mut run = Run::new();
    let step = run.marked(event(text("Hallo"), None));
    let step = run.step(step.state, detected("de", 0.9));
    let failure = TranslationBatchFailure {
        source: "de".to_owned(),
        context: "message",
        failed_targets: vec![TargetTranslationFailure {
            target: "en".to_owned(),
            attempts: 3,
            error: TranslationError::new(TranslationErrorKind::Timeout, "slow"),
        }],
        suppressed: true,
    };
    let step = run.step(step.state, Reply::Translated(Err(failure)));
    assert!(matches!(step.state, State::Done));
    assert!(matches!(step.action, Action::Finish));
    assert_eq!(step.row.unwrap().reason.as_deref(), Some("translation_suppressed"));
    assert_eq!(run.stats.translation_api_failures, 1);
}

#[test]
fn an_edit_replaces_the_translation_in_place() {
    let mut run = Run::new();
    run.settings.translation.silent_messages = true;
    let (state, action) = handle_message_core(edit(text("Neuer Text")));
    assert!(matches!(
        action,
        Action::LookupAwaitingPending { event_id } if event_id == "$orig:example.org"
    ));
    let step = run.step(state, Reply::Found(Ok(Some("$bot:example.org".to_owned()))));
    assert!(matches!(step.action, Action::Detect { ref text } if text == "Neuer Text"));
    let step = run.step(step.state, detected("de", 0.9));
    assert!(matches!(step.action, Action::Translate { context: "edit", .. }));
    let step = run.step(step.state, Reply::Translated(Ok(vec![line("en", "New text")])));
    match &step.action {
        Action::Send(content) => {
            assert!(matches!(
                &content.msgtype,
                MessageType::Notice(t) if t.body == "* 🇬🇧 New text"
            ));
            assert!(matches!(
                &content.relates_to,
                Some(Relation::Replacement { event_id, new_content: MessageType::Notice(t) })
                    if event_id == "$bot:example.org" && t.body == "🇬🇧 New text"
            ));
        }
        _ => panic!("expected a message"),
    }
    let step = run.step(step.state, sent(Some("$edit:example.org")));
    // The mapping of the original stands.
    assert!(matches!(step.action, Action::Finish));
    let row = step.row.unwrap();
    assert_eq!(row.event_id, "$orig:example.org");
    assert_eq!(row.sender.as_deref(), Some("-"));
    assert_eq!(row.text_source, "edit");
}

#[test]
fn edits_are_skipped_for_a_reason() {
    let end = |new_content, found: Option<&str>| {
        let mut run = Run::new();
        let (state, _) = handle_message_core(edit(new_content));
        let step = run.step(state, Reply::Found(Ok(found.map(str::to_owned))));
        let row = step.row.unwrap();
        assert_eq!(row.sender, None);
        assert_eq!(row.text_source, "edit");
        row.reason.unwrap()
    };
    assert_eq!(end(text("x"), None), "edit_unknown_event");
    assert_eq!(end(text("x"), Some("no event ID")), "edit_unknown_event");
    assert_eq!(end(text(" "), Some("$bot")), "edit_no_translatable_text");
    assert_eq!(end(image("1.jpg", "1.jpg"), Some("$bot")), "edit_no_translatable_text");
    assert_eq!(end(text(&"x".repeat(21)), Some("$bot")), "input_too_long");
}

#[test]
fn an_edit_is_dropped_where_the_store_fails() {
    let mut run = Run::new();
    let (state, _) = handle_message_core(edit(text("x")));
    let step = run.step(state, Reply::Found(Err("disk".to_owned())));
    assert!(matches!(step.action, Action::Finish));
    assert!(step.row.is_none());
    assert!(run.stats.skipped_snapshot().is_empty());
}

#[test]
fn an_edit_may_look_like_a_command() {
    // Commands are messages of their own: an edit is only ever translated.
    let mut run = Run::new();
    let (state, _) = handle_message_core(edit(text("!translate stats")));
    let step = run.step(state, Reply::Found(Ok(Some("$bot".to_owned()))));
    assert!(matches!(step.action, Action::Detect { .. }));
}

#[test]
fn commands_are_decided_by_the_sender() {
    let mut run = Run::new();
    let step = run.marked(event(text(" !translate stats "), None));
    assert!(matches!(step.action, Action::Command(CommandAction::Ignore)));
    assert!(matches!(step.state, State::Done));
    let mut by_admin = event(text("!translate stats"), None);
    by_admin.sender = ADMIN.to_owned();
    let step = run.marked(by_admin);
    assert!(matches!(
        step.action,
        Action::Command(CommandAction::Reply(Report::Stats))
    ));
    assert!(step.row.is_none());
    // An emote is never a command.
    let emote = MessageType::Emote(TextBody {
        body: "!translate stats".to_owned(),
        formatted: None,
    });
    let step = run.marked(event(emote, None));
    assert!(matches!(step.action, Action::Detect { .. }));
}

#[test]
fn a_translation_stays_in_the_thread_of_its_original() {
    let mut run = Run::new();
    run.settings.translation.thread_replies = false;
    let relation = Relation::Thread { event_id: "$root".to_owned(), in_reply_to: None };
    let step = run.marked(event(text("Hallo"), Some(relation)));
    let step = run.step(step.state, detected("de", 0.9));
    let step = run.step(step.state, Reply::Translated(Ok(vec![line("en", "Hello")])));
    match step.action {
        Action::Send(content) => assert!(matches!(
            content.relates_to,
            Some(Relation::Thread { event_id, .. }) if event_id == "$root"
        )),
        _ => panic!("expected a message"),
    }
}

#[test]
fn redactions_are_followed() {
    let followed = follow_redaction("$orig", &Ok(Some("$bot:example.org".to_owned()))).unwrap();
    assert_eq!(followed.bot_event_id, "$bot:example.org");
    assert_eq!(followed.on_redacted(true), Some("$orig".to_owned()));
    let followed = follow_redaction("$orig", &Ok(Some("$bot:example.org".to_owned()))).unwrap();
    assert_eq!(followed.on_redacted(false), None);
    assert!(follow_redaction("$orig", &Ok(None)).is_none());
    assert!(follow_redaction("$orig", &Ok(Some("no event".to_owned()))).is_none());
    assert!(follow_redaction("$orig", &Err("disk".to_owned())).is_none());
}

use matrix_sdk::ruma::events::relation::{InReplyTo, Replacement, Reply, Thread};
use matrix_sdk::ruma::events::room::message::{
    Relation as RumaRelation, RoomMessageEventContent, RoomMessageEventContentWithoutRelation,
};
use matrix_sdk::ruma::{EventId, OwnedEventId};
use serde_json::Value;
use translate_bot::message::{
    extract_edit_text, is_in_thread, make_edit_content, make_relation, make_translation_content,
    media_caption_kind, resolve_thread_root, Media, MessageContent, MessageEvent, MessageType,
    Relation, TextBody,
};

fn text_body(body: &str) -> TextBody {
    TextBody { body: body.to_owned(), formatted: None }
}

fn media(body: &str, filename: Option<&str>) -> Media {
    Media { body: body.to_owned(), filename: filename.map(str::to_owned) }
}

fn location() -> MessageType {
    MessageType::Other("m.location".to_owned())
}

#[test]
fn make_translation_content_text_when_not_silent() {
    let content = make_translation_content("hello".into(), "<p>hello</p>".into(), false);
    assert!(matches!(content.msgtype, MessageType::Text(_)));
}

#[test]
fn make_translation_content_notice_when_silent() {
    let content = make_translation_content("hello".into(), "<p>hello</p>".into(), true);
    assert!(matches!(content.msgtype, MessageType::Notice(_)));
}

#[test]
fn make_translation_content_preserves_body() {
    let content = make_translation_content("plain text".into(), "<b>bold</b>".into(), true);
    let body = match &content.msgtype {
        MessageType::Notice(n) => n.body.clone(),
        _ => panic!("expected Notice"),
    };
    assert_eq!(body, "plain text");
}

#[test]
fn media_caption_kind_text_is_not_media() {
    let msgtype = MessageType::Text(text_body("hello"));
    assert_eq!(media_caption_kind(&msgtype), None);
}

#[test]
fn media_caption_kind_image_with_real_caption() {
    let msgtype = MessageType::Image(media(
        "Hat jemand Interesse an einer Couch?",
        Some("1000006546.jpg"),
    ));
    assert_eq!(
        media_caption_kind(&msgtype),
        Some(("image", Some("Hat jemand Interesse an einer Couch?")))
    );
}

#[test]
fn media_caption_kind_image_filename_equal_to_body_has_no_caption() {
    let msgtype = MessageType::Image(media("1000006546.jpg", Some("1000006546.jpg")));
    assert_eq!(media_caption_kind(&msgtype), Some(("image", None)));
}

#[test]
fn media_caption_kind_image_without_filename_field_has_no_caption() {
    // Older/other clients may omit `filename` entirely and just send the
    // filename as `body`.
    let msgtype = MessageType::Image(media("1000006546.jpg", None));
    assert_eq!(media_caption_kind(&msgtype), Some(("image", None)));
}

#[test]
fn media_caption_kind_encrypted_image_caption_still_available() {
    // Whether the media file is encrypted makes no difference: only `body` and
    // `filename` count.
    let msgtype = MessageType::Image(media(
        "Hat jemand Interesse an einer Couch?",
        Some("1000006546.jpg"),
    ));
    assert_eq!(
        media_caption_kind(&msgtype),
        Some(("image", Some("Hat jemand Interesse an einer Couch?")))
    );
}

#[test]
fn media_caption_kind_file_with_caption() {
    let msgtype = MessageType::File(media("Rechnung anbei", Some("invoice.pdf")));
    assert_eq!(
        media_caption_kind(&msgtype),
        Some(("file", Some("Rechnung anbei")))
    );
}

#[test]
fn media_caption_kind_video_with_caption() {
    let msgtype = MessageType::Video(media("Schau mal!", Some("clip.mp4")));
    assert_eq!(
        media_caption_kind(&msgtype),
        Some(("video", Some("Schau mal!")))
    );
}

#[test]
fn media_caption_kind_audio_with_caption() {
    let msgtype = MessageType::Audio(media("Hör dir das an", Some("voice.ogg")));
    assert_eq!(
        media_caption_kind(&msgtype),
        Some(("audio", Some("Hör dir das an")))
    );
}

#[test]
fn media_caption_kind_unsupported_type_is_ignored() {
    assert_eq!(media_caption_kind(&location()), None);
}

#[test]
fn extract_edit_text_from_text_strips_reply_fallback() {
    let msgtype = MessageType::Text(text_body("> Alice: original\n\nEdited reply"));
    assert_eq!(extract_edit_text(&msgtype), Some("Edited reply".to_owned()));
}

#[test]
fn extract_edit_text_from_emote() {
    let msgtype = MessageType::Emote(text_body("waves hello"));
    assert_eq!(extract_edit_text(&msgtype), Some("waves hello".to_owned()));
}

#[test]
fn extract_edit_text_from_edited_image_caption() {
    let msgtype = MessageType::Image(media("Edited caption", Some("1000006546.jpg")));
    assert_eq!(
        extract_edit_text(&msgtype),
        Some("Edited caption".to_owned())
    );
}

#[test]
fn extract_edit_text_from_edited_filename_only_caption_is_none() {
    let msgtype = MessageType::Image(media("1000006546.jpg", Some("1000006546.jpg")));
    assert_eq!(extract_edit_text(&msgtype), None);
}

#[test]
fn extract_edit_text_from_unsupported_type_is_none() {
    assert_eq!(extract_edit_text(&location()), None);
}

#[test]
fn extract_edit_text_empty_after_strip_is_none() {
    let msgtype = MessageType::Text(text_body("   "));
    assert_eq!(extract_edit_text(&msgtype), None);
}

#[test]
fn message_types_have_their_names() {
    let body = || text_body("x");
    let file = || media("x", None);
    assert_eq!(MessageType::Text(body()).msgtype(), "m.text");
    assert_eq!(MessageType::Emote(body()).msgtype(), "m.emote");
    assert_eq!(MessageType::Notice(body()).msgtype(), "m.notice");
    assert_eq!(MessageType::Image(file()).msgtype(), "m.image");
    assert_eq!(MessageType::Video(file()).msgtype(), "m.video");
    assert_eq!(MessageType::Audio(file()).msgtype(), "m.audio");
    assert_eq!(MessageType::File(file()).msgtype(), "m.file");
    assert_eq!(MessageType::VerificationRequest.msgtype(), "m.key.verification.request");
    assert_eq!(location().msgtype(), "m.location");
}

#[test]
fn relation_standalone_when_reply_to_original_false() {
    let id = "$ev1:example.org";
    assert!(make_relation(id, id, false, false, false).is_none());
}

#[test]
fn relation_standalone_when_reply_to_original_false_thread_true() {
    let id = "$ev2:example.org";
    assert!(
        make_relation(id, id, false, true, false).is_none(),
        "thread_replies=true must not override reply_to_original=false"
    );
}

#[test]
fn relation_reply_when_reply_true_thread_false_not_in_thread() {
    let id = "$ev3:example.org";
    assert!(matches!(
        make_relation(id, id, true, false, false),
        Some(Relation::Reply { .. })
    ));
}

#[test]
fn relation_thread_when_reply_true_thread_true() {
    let id = "$ev4:example.org";
    assert!(matches!(
        make_relation(id, id, true, true, false),
        Some(Relation::Thread { .. })
    ));
}

#[test]
fn relation_thread_when_in_thread_even_if_thread_replies_false() {
    // thread_replies=false must NOT pull the bot out of an existing thread.
    let reply_id = "$reply_in_thread:example.org";
    let root_id = "$root:example.org";
    let Some(Relation::Thread { event_id, in_reply_to }) =
        make_relation(reply_id, root_id, true, false, true)
    else {
        panic!("expected Thread when in_thread=true regardless of thread_replies");
    };
    assert_eq!(event_id, root_id);
    assert_eq!(in_reply_to.as_deref(), Some(reply_id));
}

#[test]
fn relation_reply_points_to_event_id() {
    let id = "$ev5:example.org";
    let Some(Relation::Reply { event_id }) = make_relation(id, id, true, false, false) else {
        panic!("expected Reply");
    };
    assert_eq!(event_id, id);
}

#[test]
fn relation_thread_uses_thread_root() {
    let reply_id = "$reply:example.org";
    let root_id = "$root:example.org";
    let Some(Relation::Thread { event_id, in_reply_to }) =
        make_relation(reply_id, root_id, true, true, false)
    else {
        panic!("expected Thread");
    };
    assert_eq!(event_id, root_id, "thread root must be root_id");
    // in_reply_to inside the thread must point to the translated event itself
    assert_eq!(in_reply_to.as_deref(), Some(reply_id));
}

fn event(relates_to: Option<Relation>) -> MessageEvent {
    MessageEvent {
        event_id: "$e:example.org".to_owned(),
        room_id: "!r:example.org".to_owned(),
        sender: "@a:example.org".to_owned(),
        msgtype: MessageType::Text(text_body("hi")),
        relates_to,
    }
}

#[test]
fn thread_root_is_the_thread_or_the_event() {
    let threaded = event(Some(Relation::Thread {
        event_id: "$root:example.org".to_owned(),
        in_reply_to: None,
    }));
    assert_eq!(resolve_thread_root(&threaded), "$root:example.org");
    assert!(is_in_thread(&threaded));
    let reply = event(Some(Relation::Reply { event_id: "$other:example.org".to_owned() }));
    assert_eq!(resolve_thread_root(&reply), "$e:example.org");
    assert!(!is_in_thread(&reply));
    assert_eq!(resolve_thread_root(&event(None)), "$e:example.org");
}

// ── Exact serialized Matrix event JSON ──────────────────────────────────────

fn eid(s: &str) -> OwnedEventId {
    EventId::parse(s).unwrap()
}

/// The Matrix content of a text or a notice.
fn html_content(msgtype: &MessageType) -> RoomMessageEventContent {
    match msgtype {
        MessageType::Text(t) => RoomMessageEventContent::text_html(
            t.body.clone(),
            t.formatted.as_ref().unwrap().body.clone(),
        ),
        MessageType::Notice(t) => RoomMessageEventContent::notice_html(
            t.body.clone(),
            t.formatted.as_ref().unwrap().body.clone(),
        ),
        _ => panic!("expected a text or a notice"),
    }
}

fn to_json(content: &MessageContent) -> Value {
    let mut ruma = html_content(&content.msgtype);
    ruma.relates_to = match &content.relates_to {
        None => None,
        Some(Relation::Reply { event_id }) => {
            Some(RumaRelation::Reply(Reply::new(InReplyTo::new(eid(event_id)))))
        }
        Some(Relation::Thread { event_id, in_reply_to }) => Some(RumaRelation::Thread(
            Thread::reply(eid(event_id), eid(in_reply_to.as_ref().unwrap())),
        )),
        Some(Relation::Replacement { event_id, new_content }) => {
            Some(RumaRelation::Replacement(Replacement::new(
                eid(event_id),
                RoomMessageEventContentWithoutRelation::new(html_content(new_content).msgtype),
            )))
        }
        Some(Relation::Other) => panic!("the bot writes no such relation"),
    };
    serde_json::to_value(&ruma).unwrap()
}

fn content_with_relation(reply_to_original: bool, thread_replies: bool) -> Value {
    let mut content = make_translation_content("🇬🇧 Hello".into(), "🇬🇧 Hello".into(), false);
    content.relates_to = make_relation(
        "$original:example.org",
        "$root:example.org",
        reply_to_original,
        thread_replies,
        false,
    );
    to_json(&content)
}

#[test]
fn json_standalone_has_no_relates_to() {
    // reply_to_original=false → no relation field at all.
    let json = content_with_relation(false, false);
    assert!(
        json.get("m.relates_to").is_none(),
        "standalone must have no m.relates_to field; got: {json}"
    );
    assert_eq!(json["msgtype"], "m.text");
    assert_eq!(json["body"], "🇬🇧 Hello");
    assert_eq!(json["format"], "org.matrix.custom.html");
    assert_eq!(json["formatted_body"], "🇬🇧 Hello");
}

#[test]
fn json_reply_shape() {
    // reply_to_original=true, thread_replies=false → m.in_reply_to reply.
    // Note: no "rel_type" key — pure replies do not have rel_type.
    let json = content_with_relation(true, false);
    let rel = &json["m.relates_to"];
    assert!(!rel.is_null(), "m.relates_to must be present");
    assert!(
        rel.get("rel_type").is_none(),
        "plain reply must not have rel_type; got: {rel}"
    );
    assert_eq!(
        rel["m.in_reply_to"]["event_id"], "$original:example.org",
        "in_reply_to must point to $original:example.org"
    );
}

#[test]
fn json_thread_shape() {
    // reply_to_original=true, thread_replies=true → m.thread.
    let json = content_with_relation(true, true);
    let rel = &json["m.relates_to"];
    assert_eq!(rel["rel_type"], "m.thread", "rel_type must be m.thread");
    assert_eq!(
        rel["event_id"], "$root:example.org",
        "event_id must be thread root"
    );
    assert_eq!(
        rel["m.in_reply_to"]["event_id"], "$original:example.org",
        "in_reply_to inside thread must point to translated event"
    );
    assert!(
        rel.get("is_falling_back").is_none(),
        "a genuine thread reply has no is_falling_back: {rel}"
    );
}

#[test]
fn image_caption_standalone_event_reply_relation() {
    let caption_event_id = "$caption:example.org";

    let mut content = make_translation_content("🇩🇪 Hallo".into(), "🇩🇪 Hallo".into(), false);
    content.relates_to = make_relation(caption_event_id, caption_event_id, true, false, false);

    let json = to_json(&content);
    assert!(
        json["m.relates_to"].get("rel_type").is_none(),
        "caption reply must not have rel_type"
    );
    assert_eq!(
        json["m.relates_to"]["m.in_reply_to"]["event_id"],
        "$caption:example.org"
    );
}

#[test]
fn image_caption_threaded_event_thread_relation() {
    let thread_root = "$thread_root:example.org";
    let caption_event_id = "$caption_in_thread:example.org";

    let mut content = make_translation_content("🇩🇪 Hallo".into(), "🇩🇪 Hallo".into(), false);
    content.relates_to = make_relation(caption_event_id, thread_root, true, false, true);

    let json = to_json(&content);
    assert_eq!(json["m.relates_to"]["rel_type"], "m.thread");
    assert_eq!(json["m.relates_to"]["event_id"], "$thread_root:example.org");
    assert_eq!(
        json["m.relates_to"]["m.in_reply_to"]["event_id"],
        "$caption_in_thread:example.org"
    );
}

#[test]
fn image_caption_standalone_produces_no_relation_when_reply_to_original_false() {
    let caption_event_id = "$caption2:example.org";

    let mut content = make_translation_content("🇩🇪 Hallo".into(), "🇩🇪 Hallo".into(), false);
    content.relates_to = make_relation(caption_event_id, caption_event_id, false, false, false);

    let json = to_json(&content);
    assert!(
        json.get("m.relates_to").is_none(),
        "caption with reply_to_original=false must produce no relation"
    );
}

#[test]
fn json_edit_shape() {
    let content = make_edit_content("$bot:example.org", "neu".into(), "<b>neu</b>".into(), true);
    let json = to_json(&content);
    assert_eq!(json["msgtype"], "m.notice");
    assert_eq!(json["body"], "* neu");
    assert_eq!(json["m.relates_to"]["rel_type"], "m.replace");
    assert_eq!(json["m.relates_to"]["event_id"], "$bot:example.org");
    assert_eq!(json["m.new_content"]["msgtype"], "m.notice");
    assert_eq!(json["m.new_content"]["body"], "neu");
    assert_eq!(json["m.new_content"]["formatted_body"], "<b>neu</b>");
}

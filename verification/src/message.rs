//! Matrix messages as the bot reads and writes them.
use vstd::prelude::*;

use crate::compose::concat3;
use crate::markup::{strip_reply_fallback, without_reply_fallback};
use crate::text::{
    begins_with, in_class, law_char_classes, law_trimming, opt_text, trim, trimmed, whitespace,
    CharClass,
};

verus! {

// ── Contents ────────────────────────────────────────────────────────────────
/// The formatted form of a text.
pub struct FormattedBody {
    /// Whether the format is `org.matrix.custom.html`.
    pub html: bool,
    pub body: String,
}

pub struct FormattedView {
    pub html: bool,
    pub body: Seq<char>,
}

pub open spec fn formatted_view(f: Option<FormattedBody>) -> Option<FormattedView> {
    match f {
        Some(fb) => Some(FormattedView { html: fb.html, body: fb.body@ }),
        None => None,
    }
}

/// A text with its formatted form, if it has one.
pub struct TextBody {
    pub body: String,
    pub formatted: Option<FormattedBody>,
}

pub struct TextView {
    pub body: Seq<char>,
    pub formatted: Option<FormattedView>,
}

impl View for TextBody {
    type V = TextView;

    open spec fn view(&self) -> TextView {
        TextView { body: self.body@, formatted: formatted_view(self.formatted) }
    }
}

/// A media message. The body is a caption where it differs from the file name.
pub struct Media {
    pub body: String,
    pub filename: Option<String>,
}

pub struct MediaView {
    pub body: Seq<char>,
    pub filename: Option<Seq<char>>,
}

impl View for Media {
    type V = MediaView;

    open spec fn view(&self) -> MediaView {
        MediaView { body: self.body@, filename: opt_text(self.filename) }
    }
}

/// The type of a room message, with the parts that the bot reads.
pub enum MessageType {
    Text(TextBody),
    Emote(TextBody),
    Notice(TextBody),
    Image(Media),
    Video(Media),
    Audio(Media),
    File(Media),
    VerificationRequest,
    /// Any other type, by its name.
    Other(String),
}

pub enum MessageView {
    Text(TextView),
    Emote(TextView),
    Notice(TextView),
    Image(MediaView),
    Video(MediaView),
    Audio(MediaView),
    File(MediaView),
    VerificationRequest,
    Other(Seq<char>),
}

impl View for MessageType {
    type V = MessageView;

    open spec fn view(&self) -> MessageView {
        match self {
            MessageType::Text(t) => MessageView::Text(t@),
            MessageType::Emote(t) => MessageView::Emote(t@),
            MessageType::Notice(t) => MessageView::Notice(t@),
            MessageType::Image(m) => MessageView::Image(m@),
            MessageType::Video(m) => MessageView::Video(m@),
            MessageType::Audio(m) => MessageView::Audio(m@),
            MessageType::File(m) => MessageView::File(m@),
            MessageType::VerificationRequest => MessageView::VerificationRequest,
            MessageType::Other(name) => MessageView::Other(name@),
        }
    }
}

impl MessageView {
    /// The name of the type.
    pub open spec fn name(self) -> Seq<char> {
        match self {
            MessageView::Text(_) => "m.text"@,
            MessageView::Emote(_) => "m.emote"@,
            MessageView::Notice(_) => "m.notice"@,
            MessageView::Image(_) => "m.image"@,
            MessageView::Video(_) => "m.video"@,
            MessageView::Audio(_) => "m.audio"@,
            MessageView::File(_) => "m.file"@,
            MessageView::VerificationRequest => "m.key.verification.request"@,
            MessageView::Other(name) => name,
        }
    }
}

impl MessageType {
    /// The name of the type.
    pub fn msgtype(&self) -> (r: &str)
        ensures
            r@ == self@.name(),
    {
        match self {
            MessageType::Text(_) => "m.text",
            MessageType::Emote(_) => "m.emote",
            MessageType::Notice(_) => "m.notice",
            MessageType::Image(_) => "m.image",
            MessageType::Video(_) => "m.video",
            MessageType::Audio(_) => "m.audio",
            MessageType::File(_) => "m.file",
            MessageType::VerificationRequest => "m.key.verification.request",
            MessageType::Other(name) => name.as_str(),
        }
    }
}

// ── Captions ────────────────────────────────────────────────────────────────
impl MediaView {
    /// The caption: the body where a file name is given and differs from it.
    pub open spec fn caption_text(self) -> Option<Seq<char>> {
        match self.filename {
            Some(filename) => if filename != self.body {
                Some(self.body)
            } else {
                None
            },
            None => None,
        }
    }
}

/// The text behind an optional reference.
pub open spec fn opt_ref(s: Option<&str>) -> Option<Seq<char>> {
    match s {
        Some(t) => Some(t@),
        None => None,
    }
}

impl Media {
    /// The caption: the body where a file name is given and differs from it.
    pub fn caption(&self) -> (r: Option<&str>)
        ensures
            opt_ref(r) == self@.caption_text(),
    {
        match &self.filename {
            Some(filename) => if *filename != self.body {
                Some(self.body.as_str())
            } else {
                None
            },
            None => None,
        }
    }
}

impl MessageView {
    /// The short name of a type with a caption slot, and the caption in it.
    pub open spec fn caption_slot(self) -> Option<(Seq<char>, Option<Seq<char>>)> {
        match self {
            MessageView::Image(m) => Some(("image"@, m.caption_text())),
            MessageView::Video(m) => Some(("video"@, m.caption_text())),
            MessageView::Audio(m) => Some(("audio"@, m.caption_text())),
            MessageView::File(m) => Some(("file"@, m.caption_text())),
            _ => None,
        }
    }
}

pub open spec fn slot_view(r: Option<(&'static str, Option<&str>)>) -> Option<
    (Seq<char>, Option<Seq<char>>),
> {
    match r {
        Some((kind, caption)) => Some((kind@, opt_ref(caption))),
        None => None,
    }
}

/// For a type that has a caption slot (image, video, audio, file): its short
/// name and the caption, which is `None` where the slot is unused. `None` for a
/// type without a caption slot.
pub fn media_caption_kind(msgtype: &MessageType) -> (r: Option<(&'static str, Option<&str>)>)
    ensures
        slot_view(r) == msgtype@.caption_slot(),
{
    match msgtype {
        MessageType::Image(m) => Some(("image", m.caption())),
        MessageType::Video(m) => Some(("video", m.caption())),
        MessageType::Audio(m) => Some(("audio", m.caption())),
        MessageType::File(m) => Some(("file", m.caption())),
        _ => None,
    }
}

/// A bare file name is never taken for a caption: there is one only where a
/// file name is given that differs from the body.
pub proof fn law_file_name_is_no_caption(msgtype: MessageView)
    ensures
        msgtype.caption_slot() matches Some((_, Some(caption))) ==> {
            &&& msgtype matches MessageView::Image(m) ==> m.filename is Some && m.filename->0
                != caption
            &&& msgtype matches MessageView::Video(m) ==> m.filename is Some && m.filename->0
                != caption
            &&& msgtype matches MessageView::Audio(m) ==> m.filename is Some && m.filename->0
                != caption
            &&& msgtype matches MessageView::File(m) ==> m.filename is Some && m.filename->0
                != caption
        },
{
}

// ── Text to translate ───────────────────────────────────────────────────────
/// `s` without white space around it, unless nothing else is left.
pub open spec fn nonblank(s: Seq<char>) -> Option<Seq<char>> {
    if trimmed(s).len() == 0 {
        None
    } else {
        Some(trimmed(s))
    }
}

/// `s` without white space around it, unless nothing else is left.
pub fn nonblank_text(s: &str) -> (r: Option<String>)
    ensures
        opt_text(r) == nonblank(s@),
{
    let t = trim(s);
    if t.as_str().is_empty() {
        None
    } else {
        Some(t)
    }
}

/// The text that is translated of a body: without the quoted message that a
/// reply starts with, and without white space around it.
pub open spec fn body_text(body: Seq<char>) -> Option<Seq<char>> {
    nonblank(without_reply_fallback(trimmed(body)))
}

/// The text that is translated of a body: without the quoted message that a
/// reply starts with, and without white space around it. `None` where nothing
/// is left.
pub fn translatable_body(body: &str) -> (r: Option<String>)
    ensures
        opt_text(r) == body_text(body@),
{
    let raw = trim(body);
    let text = strip_reply_fallback(raw.as_str());
    nonblank_text(text.as_str())
}

impl MessageView {
    /// The text that is translated of an edited message.
    pub open spec fn edit_text(self) -> Option<Seq<char>> {
        match self {
            MessageView::Text(t) => body_text(t.body),
            MessageView::Emote(t) => body_text(t.body),
            _ => match self.caption_slot() {
                Some((_, Some(caption))) => nonblank(caption),
                _ => None,
            },
        }
    }
}

/// The translatable text of an edit's new content: the body of a text or an
/// emote, the caption of a medium. `None` where there is nothing to translate.
pub fn extract_edit_text(msgtype: &MessageType) -> (r: Option<String>)
    ensures
        opt_text(r) == msgtype@.edit_text(),
{
    match msgtype {
        MessageType::Text(t) => translatable_body(t.body.as_str()),
        MessageType::Emote(t) => translatable_body(t.body.as_str()),
        other => match media_caption_kind(other) {
            Some((_, Some(caption))) => nonblank_text(caption),
            _ => None,
        },
    }
}

// ── Relations ───────────────────────────────────────────────────────────────
/// How a message relates to another event.
pub enum Relation {
    Reply { event_id: String },
    Thread { event_id: String, in_reply_to: Option<String> },
    Replacement { event_id: String, new_content: MessageType },
    Other,
}

pub enum RelationView {
    Reply { event_id: Seq<char> },
    Thread { event_id: Seq<char>, in_reply_to: Option<Seq<char>> },
    Replacement { event_id: Seq<char>, new_content: MessageView },
    Other,
}

impl View for Relation {
    type V = RelationView;

    open spec fn view(&self) -> RelationView {
        match self {
            Relation::Reply { event_id } => RelationView::Reply { event_id: event_id@ },
            Relation::Thread { event_id, in_reply_to } => RelationView::Thread {
                event_id: event_id@,
                in_reply_to: opt_text(*in_reply_to),
            },
            Relation::Replacement { event_id, new_content } => RelationView::Replacement {
                event_id: event_id@,
                new_content: new_content@,
            },
            Relation::Other => RelationView::Other,
        }
    }
}

pub open spec fn opt_relation(r: Option<Relation>) -> Option<RelationView> {
    match r {
        Some(relation) => Some(relation@),
        None => None,
    }
}

/// The relation of a translation to the event it translates.
///
/// | reply_to_original | in_thread | thread_replies | result              |
/// |-------------------|-----------|----------------|---------------------|
/// | false             | *         | *              | None (standalone)   |
/// | true              | true      | *              | m.thread            |
/// | true              | false     | false          | m.in_reply_to reply |
/// | true              | false     | true           | m.thread            |
pub open spec fn relation_to(
    event_id: Seq<char>,
    thread_root: Seq<char>,
    reply_to_original: bool,
    thread_replies: bool,
    in_thread: bool,
) -> Option<RelationView> {
    if !reply_to_original {
        None
    } else if in_thread || thread_replies {
        Some(RelationView::Thread { event_id: thread_root, in_reply_to: Some(event_id) })
    } else {
        Some(RelationView::Reply { event_id })
    }
}

/// Computes the relation of a translation to the event `event_id`. `in_thread`
/// says whether that event is inside a thread already: the translation then
/// stays in the thread whatever `thread_replies` says, which only keeps the bot
/// from opening new threads.
pub fn make_relation(
    event_id: &str,
    thread_root: &str,
    reply_to_original: bool,
    thread_replies: bool,
    in_thread: bool,
) -> (r: Option<Relation>)
    ensures
        opt_relation(r) == relation_to(
            event_id@,
            thread_root@,
            reply_to_original,
            thread_replies,
            in_thread,
        ),
{
    if !reply_to_original {
        return None;
    }
    if in_thread || thread_replies {
        Some(
            Relation::Thread {
                event_id: thread_root.to_owned(),
                in_reply_to: Some(event_id.to_owned()),
            },
        )
    } else {
        Some(Relation::Reply { event_id: event_id.to_owned() })
    }
}

/// A translation never leaves the thread of its original, opens no thread where
/// thread replies are off, and relates to nothing where replies are off.
pub proof fn law_relation_table(
    event_id: Seq<char>,
    thread_root: Seq<char>,
    reply_to_original: bool,
    thread_replies: bool,
    in_thread: bool,
)
    ensures
        ({
            let r = relation_to(
                event_id,
                thread_root,
                reply_to_original,
                thread_replies,
                in_thread,
            );
            let threaded = RelationView::Thread {
                event_id: thread_root,
                in_reply_to: Some(event_id),
            };
            &&& r is None <==> !reply_to_original
            &&& reply_to_original && in_thread ==> r == Some(threaded)
            &&& reply_to_original && !in_thread && thread_replies ==> r == Some(threaded)
            &&& reply_to_original && !in_thread && !thread_replies ==> r == Some(
                RelationView::Reply { event_id },
            )
        }),
{
}

// ── Events ──────────────────────────────────────────────────────────────────
/// A message that arrived in a room.
pub struct MessageEvent {
    pub event_id: String,
    pub room_id: String,
    pub sender: String,
    pub msgtype: MessageType,
    pub relates_to: Option<Relation>,
}

pub struct MessageEventView {
    pub event_id: Seq<char>,
    pub room_id: Seq<char>,
    pub sender: Seq<char>,
    pub msgtype: MessageView,
    pub relates_to: Option<RelationView>,
}

impl View for MessageEvent {
    type V = MessageEventView;

    open spec fn view(&self) -> MessageEventView {
        MessageEventView {
            event_id: self.event_id@,
            room_id: self.room_id@,
            sender: self.sender@,
            msgtype: self.msgtype@,
            relates_to: opt_relation(self.relates_to),
        }
    }
}

impl MessageEventView {
    /// The thread root for an answer to the event.
    pub open spec fn thread_root(self) -> Seq<char> {
        match self.relates_to {
            Some(RelationView::Thread { event_id, .. }) => event_id,
            _ => self.event_id,
        }
    }

    /// Whether the event is inside a thread.
    pub open spec fn in_thread(self) -> bool {
        self.relates_to matches Some(RelationView::Thread { .. })
    }
}

/// The thread root for an answer to `event`: the root of the thread it is in,
/// else the event itself.
pub fn resolve_thread_root(event: &MessageEvent) -> (r: String)
    ensures
        r@ == event@.thread_root(),
{
    match &event.relates_to {
        Some(Relation::Thread { event_id, .. }) => event_id.clone(),
        _ => event.event_id.clone(),
    }
}

/// Whether `event` is inside a thread.
pub fn is_in_thread(event: &MessageEvent) -> (r: bool)
    ensures
        r == event@.in_thread(),
{
    match &event.relates_to {
        Some(Relation::Thread { .. }) => true,
        _ => false,
    }
}

// ── Translations ────────────────────────────────────────────────────────────
/// A message that the bot sends.
pub struct MessageContent {
    pub msgtype: MessageType,
    pub relates_to: Option<Relation>,
}

pub struct ContentView {
    pub msgtype: MessageView,
    pub relates_to: Option<RelationView>,
}

impl View for MessageContent {
    type V = ContentView;

    open spec fn view(&self) -> ContentView {
        ContentView { msgtype: self.msgtype@, relates_to: opt_relation(self.relates_to) }
    }
}

/// A text with an HTML form: a notice where it is silent, else a text.
pub open spec fn html_message(plain: Seq<char>, html: Seq<char>, silent: bool) -> MessageView {
    let text = TextView { body: plain, formatted: Some(FormattedView { html: true, body: html }) };
    if silent {
        MessageView::Notice(text)
    } else {
        MessageView::Text(text)
    }
}

fn html_msgtype(plain: String, html: String, silent: bool) -> (r: MessageType)
    ensures
        r@ == html_message(plain@, html@, silent),
{
    let text = TextBody { body: plain, formatted: Some(FormattedBody { html: true, body: html }) };
    if silent {
        MessageType::Notice(text)
    } else {
        MessageType::Text(text)
    }
}

/// The content of a translation: `m.notice` where it is silent, else `m.text`.
pub fn make_translation_content(plain: String, html: String, silent: bool) -> (r: MessageContent)
    ensures
        r@ == (ContentView { msgtype: html_message(plain@, html@, silent), relates_to: None }),
{
    MessageContent { msgtype: html_msgtype(plain, html, silent), relates_to: None }
}

/// The content that replaces the translation `bot_event_id` by a new one.
pub open spec fn edit_of(
    bot_event_id: Seq<char>,
    plain: Seq<char>,
    html: Seq<char>,
    silent: bool,
) -> ContentView {
    ContentView {
        msgtype: html_message("* "@ + plain, html, silent),
        relates_to: Some(
            RelationView::Replacement {
                event_id: bot_event_id,
                new_content: html_message(plain, html, silent),
            },
        ),
    }
}

/// The content that replaces the translation `bot_event_id` by a new one. The
/// body is a fallback for clients that do not know edits.
pub fn make_edit_content(bot_event_id: &str, plain: String, html: String, silent: bool) -> (r:
    MessageContent)
    ensures
        r@ == edit_of(bot_event_id@, plain@, html@, silent),
{
    let fallback = concat3("* ", plain.as_str(), "");
    proof {
        reveal_strlit("");
        assert(fallback@ =~= "* "@ + plain@);
    }
    let fallback_html = html.clone();
    let new_content = html_msgtype(plain, html, silent);
    MessageContent {
        msgtype: html_msgtype(fallback, fallback_html, silent),
        relates_to: Some(
            Relation::Replacement { event_id: bot_event_id.to_owned(), new_content },
        ),
    }
}

// ── Laws ────────────────────────────────────────────────────────────────────
/// A caption is the body of an image, a video, an audio or a file for which a
/// file name is given that differs from the body; no other message has a slot
/// for one.
pub proof fn law_captions(m: MediaView, msgtype: MessageView)
    ensures
        ({
            let caption = match m.filename {
                Some(name) => if name == m.body {
                    None
                } else {
                    Some(m.body)
                },
                None => None,
            };
            &&& MessageView::Image(m).caption_slot() == Some(("image"@, caption))
            &&& MessageView::Video(m).caption_slot() == Some(("video"@, caption))
            &&& MessageView::Audio(m).caption_slot() == Some(("audio"@, caption))
            &&& MessageView::File(m).caption_slot() == Some(("file"@, caption))
        }),
        msgtype.caption_slot() is Some <==> msgtype is Image || msgtype is Video || msgtype is Audio
            || msgtype is File,
{
}

/// The names of the message types.
pub proof fn law_msgtype_names(t: TextView, m: MediaView, name: Seq<char>)
    ensures
        MessageView::Text(t).name() == "m.text"@,
        MessageView::Emote(t).name() == "m.emote"@,
        MessageView::Notice(t).name() == "m.notice"@,
        MessageView::Image(m).name() == "m.image"@,
        MessageView::Video(m).name() == "m.video"@,
        MessageView::Audio(m).name() == "m.audio"@,
        MessageView::File(m).name() == "m.file"@,
        MessageView::Other(name).name() == name,
{
}

/// A text is worth translating where it holds more than white space; it is then
/// taken without the white space around it.
pub proof fn law_nonblank(s: Seq<char>)
    ensures
        nonblank(s) is None <==> forall|i: int| 0 <= i < s.len() ==> whitespace(#[trigger] s[i]),
        nonblank(s) matches Some(t) ==> t == trimmed(s),
{
    let (lo, hi) = law_trimming(s, CharClass::Whitespace);
    law_char_classes(' ');
    if lo < hi {
        assert(!whitespace(s[lo]));
    } else {
        assert forall|i: int| 0 <= i < s.len() implies whitespace(#[trigger] s[i]) by {
            assert(in_class(CharClass::Whitespace, s[i]));
        }
    }
}

/// Of a body its whole text is translated, but for white space around it and for
/// the reply fallback that it begins with.
pub proof fn law_body_text(body: Seq<char>)
    ensures
        !begins_with(trimmed(body), "> "@) ==> body_text(body) == nonblank(trimmed(body)),
        begins_with(trimmed(body), "> "@) ==> body_text(body) == nonblank(
            without_reply_fallback(trimmed(body)),
        ),
{
}

/// Of an edit, the body of a text or an emote is translated, and the caption of
/// an image, a video, an audio or a file; of nothing else anything is.
pub proof fn law_edit_text(t: TextView, m: MediaView, msgtype: MessageView)
    ensures
        MessageView::Text(t).edit_text() == body_text(t.body),
        MessageView::Emote(t).edit_text() == body_text(t.body),
        ({
            let caption = match m.filename {
                Some(name) => if name == m.body {
                    None
                } else {
                    nonblank(m.body)
                },
                None => None,
            };
            &&& MessageView::Image(m).edit_text() == caption
            &&& MessageView::Video(m).edit_text() == caption
            &&& MessageView::Audio(m).edit_text() == caption
            &&& MessageView::File(m).edit_text() == caption
        }),
        msgtype is Notice || msgtype is VerificationRequest || msgtype is Other
            ==> msgtype.edit_text() is None,
{
}

/// An event is in a thread exactly where it relates to one, and the root of that
/// thread is then the root for its answers. For every other event, a plain reply
/// too, the root is the event itself.
pub proof fn law_thread_root(event: MessageEventView)
    ensures
        event.relates_to matches Some(RelationView::Thread { event_id, .. }) ==> event.in_thread()
            && event.thread_root() == event_id,
        !(event.relates_to matches Some(RelationView::Thread { .. })) ==> !event.in_thread()
            && event.thread_root() == event.event_id,
{
}

/// A message of the bot holds its plain text as its body and its HTML as the
/// formatted body; it is a notice where it is silent, else a text.
pub proof fn law_message_contents(plain: Seq<char>, html: Seq<char>)
    ensures
        ({
            let text = TextView {
                body: plain,
                formatted: Some(FormattedView { html: true, body: html }),
            };
            &&& html_message(plain, html, true) == MessageView::Notice(text)
            &&& html_message(plain, html, false) == MessageView::Text(text)
        }),
{
}

/// An edit of a translation replaces it by the new texts; its own body repeats
/// them behind a star, for clients that do not know edits.
pub proof fn law_edit_contents(
    bot_event_id: Seq<char>,
    plain: Seq<char>,
    html: Seq<char>,
    silent: bool,
)
    ensures
        ({
            let edit = edit_of(bot_event_id, plain, html, silent);
            &&& edit.relates_to == Some(
                RelationView::Replacement {
                    event_id: bot_event_id,
                    new_content: html_message(plain, html, silent),
                },
            )
            &&& edit.msgtype == html_message("* "@ + plain, html, silent)
        }),
{
}

/// Messages say what they hold.
pub proof fn law_message_views(
    t: TextBody,
    m: Media,
    name: String,
    event: MessageEvent,
    content: MessageContent,
)
    ensures
        t@.body == t.body@,
        t.formatted matches Some(f) ==> t@.formatted == Some(
            FormattedView { html: f.html, body: f.body@ },
        ),
        t.formatted is None ==> t@.formatted is None,
        m@.body == m.body@,
        m.filename matches Some(f) ==> m@.filename == Some(f@),
        m.filename is None ==> m@.filename is None,
        MessageType::Text(t)@ == MessageView::Text(t@),
        MessageType::Emote(t)@ == MessageView::Emote(t@),
        MessageType::Notice(t)@ == MessageView::Notice(t@),
        MessageType::Image(m)@ == MessageView::Image(m@),
        MessageType::Video(m)@ == MessageView::Video(m@),
        MessageType::Audio(m)@ == MessageView::Audio(m@),
        MessageType::File(m)@ == MessageView::File(m@),
        MessageType::VerificationRequest@ == MessageView::VerificationRequest,
        MessageType::Other(name)@ == MessageView::Other(name@),
        event@.event_id == event.event_id@ && event@.room_id == event.room_id@ && event@.sender
            == event.sender@ && event@.msgtype == event.msgtype@,
        event.relates_to matches Some(r) ==> event@.relates_to == Some(r@),
        event.relates_to is None ==> event@.relates_to is None,
        content@.msgtype == content.msgtype@,
        content.relates_to matches Some(r) ==> content@.relates_to == Some(r@),
        content.relates_to is None ==> content@.relates_to is None,
{
}

/// Relations say what they hold.
pub proof fn law_relation_views(id: String, answered: String, new_content: MessageType)
    ensures
        (Relation::Reply { event_id: id })@ == (RelationView::Reply { event_id: id@ }),
        (Relation::Thread { event_id: id, in_reply_to: Some(answered) })@ == (RelationView::Thread {
            event_id: id@,
            in_reply_to: Some(answered@),
        }),
        (Relation::Thread { event_id: id, in_reply_to: None })@ == (RelationView::Thread {
            event_id: id@,
            in_reply_to: None,
        }),
        (Relation::Replacement { event_id: id, new_content })@ == (RelationView::Replacement {
            event_id: id@,
            new_content: new_content@,
        }),
        Relation::Other@ == RelationView::Other,
{
}

} // verus!

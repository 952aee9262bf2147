//! The way of a message through the bot: from its arrival over detection and
//! translation to the message that is sent and what is noted about it.
//!
//! Each function takes what came of one outside step (a lookup, a detection, a
//! batch of translations, a send) and decides on the next one.
use vstd::prelude::*;

use crate::batch::{
    batch_view, bodies, build_translation_bodies, BatchFailureView, TranslatedLine,
    TranslatedLineView, TranslationBatchFailure,
};
use crate::commands::{command_in, parse_command, Command, CommandView};
use crate::config::EffectiveTranslationConfig;
use crate::db::{
    law_recorded_translation_is_found, law_removed_translation_is_gone, looked_up, lookup_view,
    one_row_each, recorded, removed, row_at, Lookup, RowView, TRANSLATIONS_MAX_AGE_SECS,
    TRANSLATIONS_ROW_CAP,
};
use crate::ids::{parse_event_id, parsed_event_id};
use crate::interval::Interval;
use crate::markup::{without_mx_reply, strip_mx_reply};
use crate::message::{
    body_text, edit_of, extract_edit_text, html_message, is_in_thread, make_edit_content,
    make_relation, make_translation_content, media_caption_kind, nonblank, nonblank_text,
    relation_to, resolve_thread_root, translatable_body, ContentView, FormattedBody, FormattedView,
    MediaView, MessageContent, MessageEvent, MessageEventView, MessageType, MessageView, Relation,
    RelationView, TextBody, TextView,
};
use crate::outcome::{stored, DbEventOutcome};
use crate::record::{
    log_suppressed_translation, record_skip, record_translated, skip_noted, skip_outcome,
    suppressed_outcome, suppression_noted, translated_outcome, translation_noted, Subject,
    SubjectView,
};
use crate::retry::{request_for, InputView, TranslationInput};
use crate::skip::SkipReason;
use crate::stats::{Stats, StatsView};
use crate::targets::{resolve_translation_targets, targets_for, targets_view, DetectResult};
use crate::text::{char_count, opt_text, texts, trim, trimmed};

verus! {

// ── Arrival ─────────────────────────────────────────────────────────────────
/// An edit of an earlier message.
pub struct EditEvent {
    /// The message that is edited.
    pub original_event_id: String,
    pub room_id: String,
    pub new_content: MessageType,
}

pub struct EditView {
    pub original_event_id: Seq<char>,
    pub room_id: Seq<char>,
    pub new_content: MessageView,
}

impl View for EditEvent {
    type V = EditView;

    open spec fn view(&self) -> EditView {
        EditView {
            original_event_id: self.original_event_id@,
            room_id: self.room_id@,
            new_content: self.new_content@,
        }
    }
}

/// What a message turns out to be at first sight.
pub enum Arrival {
    /// An edit: see whether its original has a translation.
    Edit(EditEvent),
    /// A message of its own: see whether it has a translation already.
    Message(MessageEvent),
}

pub enum ArrivalView {
    Edit(EditView),
    Message(MessageEventView),
}

impl View for Arrival {
    type V = ArrivalView;

    open spec fn view(&self) -> ArrivalView {
        match self {
            Arrival::Edit(edit) => ArrivalView::Edit(edit@),
            Arrival::Message(event) => ArrivalView::Message(event@),
        }
    }
}

/// What `event` turns out to be at first sight.
pub open spec fn arrival_of(event: MessageEventView) -> ArrivalView {
    match event.relates_to {
        Some(RelationView::Replacement { event_id, new_content }) => ArrivalView::Edit(
            EditView { original_event_id: event_id, room_id: event.room_id, new_content },
        ),
        _ => ArrivalView::Message(event),
    }
}

/// Tells an edit from a message of its own. The body of an edit is only a
/// fallback for old clients and is dropped here, whatever its type.
pub fn route_message(event: MessageEvent) -> (r: Arrival)
    ensures
        r@ == arrival_of(event@),
{
    match event.relates_to {
        Some(Relation::Replacement { event_id, new_content }) => Arrival::Edit(
            EditEvent { original_event_id: event_id, room_id: event.room_id, new_content },
        ),
        _ => Arrival::Message(event),
    }
}

/// A message as the diagnostics describe it.
pub open spec fn message_subject(
    event: MessageEventView,
    msgtype: Seq<char>,
    text_source: Seq<char>,
) -> SubjectView {
    SubjectView {
        event_id: event.event_id,
        room_id: event.room_id,
        sender: Some(event.sender),
        msgtype,
        text_source,
    }
}

/// A message as the diagnostics describe it.
pub fn describe_message(event: &MessageEvent, msgtype: &str, text_source: &'static str) -> (r:
    Subject)
    ensures
        r@ == message_subject(event@, msgtype@, text_source@),
{
    Subject {
        event_id: event.event_id.clone(),
        room_id: event.room_id.clone(),
        sender: Some(event.sender.clone()),
        msgtype: msgtype.to_owned(),
        text_source,
    }
}

/// Whether an optional row is the one of a skipped event, where it was skipped.
pub open spec fn skip_row(
    row: Option<DbEventOutcome>,
    skipped: bool,
    subject: SubjectView,
    reason: SkipReason,
    at: Option<u64>,
) -> bool {
    match row {
        Some(r) => skipped && r@ == stored(skip_outcome(subject, reason, at)),
        None => !skipped,
    }
}

/// Skips a message that was translated already, whatever the reason for seeing
/// it again. Where the lookup failed, the message counts as not translated.
/// Returns the row for the durable history where the message is skipped.
pub fn skip_if_translated(
    event: &MessageEvent,
    lookup: &Lookup,
    stats: &mut Stats,
    at: Option<u64>,
) -> (row: Option<DbEventOutcome>)
    requires
        old(stats)@.wf(),
    ensures
        final(stats)@.wf(),
        ({
            let subject = message_subject(event@, event@.msgtype.name(), "n/a"@);
            let found = *lookup matches Ok(Some(_));
            &&& skip_row(row, found, subject, SkipReason::AlreadyTranslated, at)
            &&& final(stats)@ == if found {
                skip_noted(old(stats)@, subject, SkipReason::AlreadyTranslated, at)
            } else {
                old(stats)@
            }
        }),
{
    match lookup {
        Ok(Some(_)) => {
            let subject = describe_message(event, event.msgtype.msgtype(), "n/a");
            Some(record_skip(stats, &subject, SkipReason::AlreadyTranslated, at))
        },
        _ => None,
    }
}

// ── Classification ──────────────────────────────────────────────────────────
/// How a translation is delivered.
pub enum Delivery {
    /// As a message of its own, related to the original.
    New { thread_root: String, in_thread: bool },
    /// In place of the bot's earlier translation.
    Edit { bot_event_id: String },
}

pub enum DeliveryView {
    New { thread_root: Seq<char>, in_thread: bool },
    Edit { bot_event_id: Seq<char> },
}

impl View for Delivery {
    type V = DeliveryView;

    open spec fn view(&self) -> DeliveryView {
        match self {
            Delivery::New { thread_root, in_thread } => DeliveryView::New {
                thread_root: thread_root@,
                in_thread: *in_thread,
            },
            Delivery::Edit { bot_event_id } => DeliveryView::Edit { bot_event_id: bot_event_id@ },
        }
    }
}

/// A text that is to be translated.
pub struct Job {
    pub subject: Subject,
    /// What kind of text it is, for the log and the diagnostics.
    pub context: &'static str,
    pub input: TranslationInput,
    pub delivery: Delivery,
}

pub struct JobView {
    pub subject: SubjectView,
    pub context: Seq<char>,
    pub input: InputView,
    pub delivery: DeliveryView,
}

impl View for Job {
    type V = JobView;

    open spec fn view(&self) -> JobView {
        JobView {
            subject: self.subject@,
            context: self.context@,
            input: self.input@,
            delivery: self.delivery@,
        }
    }
}

impl Job {
    /// The text whose language is to be detected.
    pub fn text(&self) -> (r: &str)
        ensures
            r@ == self@.input.plain_part(),
    {
        match &self.input {
            TranslationInput::Text { plain } => plain.as_str(),
            TranslationInput::Html { plain, .. } => plain.as_str(),
        }
    }
}

/// What a message asks for.
pub enum Class {
    Skip { subject: SubjectView, reason: SkipReason },
    Command(CommandView),
    Translate(JobView),
}

/// The delivery of the translation of `event`.
pub open spec fn delivery_for(event: MessageEventView) -> DeliveryView {
    DeliveryView::New { thread_root: event.thread_root(), in_thread: event.in_thread() }
}

/// Whether a text, in the form in which it is submitted and as plain text, is too
/// long.
pub open spec fn too_long(
    plain: Seq<char>,
    html: Option<Seq<char>>,
    max_input_chars: usize,
) -> bool {
    plain.len() > max_input_chars || (html matches Some(h) && h.len() > max_input_chars)
}

/// What a text asks for: it is translated where it is neither empty nor too
/// long.
pub open spec fn classified_text(
    subject: SubjectView,
    context: Seq<char>,
    text: Option<Seq<char>>,
    empty: SkipReason,
    html: Option<Seq<char>>,
    delivery: DeliveryView,
    max_input_chars: usize,
) -> Class {
    match text {
        None => Class::Skip { subject, reason: empty },
        Some(plain) => if too_long(plain, html, max_input_chars) {
            Class::Skip { subject, reason: SkipReason::InputTooLong }
        } else {
            Class::Translate(
                JobView {
                    subject,
                    context,
                    input: match html {
                        Some(h) => InputView::Html { html: h, plain },
                        None => InputView::Text { plain },
                    },
                    delivery,
                },
            )
        },
    }
}

/// The HTML that is translated of a text, where it has an HTML form.
pub open spec fn html_part(formatted: Option<FormattedView>) -> Option<Seq<char>> {
    match formatted {
        Some(f) => if f.html {
            Some(without_mx_reply(f.body))
        } else {
            None
        },
        None => None,
    }
}

/// What the body of a text or an emote asks for.
pub open spec fn body_class(
    event: MessageEventView,
    text: TextView,
    max_input_chars: usize,
) -> Class {
    classified_text(
        message_subject(event, event.msgtype.name(), "body"@),
        "message"@,
        body_text(text.body),
        SkipReason::EmptyText,
        html_part(text.formatted),
        delivery_for(event),
        max_input_chars,
    )
}

/// What `event` asks for.
pub open spec fn class_of(event: MessageEventView, max_input_chars: usize) -> Class {
    match event.msgtype.caption_slot() {
        Some((kind, caption)) => classified_text(
            message_subject(event, kind, "caption"@),
            kind,
            match caption {
                Some(c) => nonblank(c),
                None => None,
            },
            SkipReason::NoCaption,
            None,
            delivery_for(event),
            max_input_chars,
        ),
        None => match event.msgtype {
            MessageView::Text(text) => match command_in(trimmed(text.body)) {
                Some(command) => Class::Command(command),
                None => body_class(event, text, max_input_chars),
            },
            MessageView::Emote(text) => body_class(event, text, max_input_chars),
            other => Class::Skip {
                subject: message_subject(event, other.name(), "body"@),
                reason: SkipReason::UnsupportedMsgtype,
            },
        },
    }
}

/// What was decided on a message.
pub enum Classified {
    /// It is skipped; the row is for the durable history.
    Skipped(DbEventOutcome),
    Command(Command),
    /// Detect the language of its text.
    Detect(Job),
}

/// Whether `r` is what `class` asks for.
pub open spec fn carries_out(r: Classified, class: Class, at: Option<u64>) -> bool {
    match class {
        Class::Skip { subject, reason } => r matches Classified::Skipped(row) && row@ == stored(
            skip_outcome(subject, reason, at),
        ),
        Class::Command(command) => r matches Classified::Command(c) && c@ == command,
        Class::Translate(job) => r matches Classified::Detect(j) && j@ == job,
    }
}

/// The statistics after `class` was carried out.
pub open spec fn class_noted(stats: StatsView, class: Class, at: Option<u64>) -> StatsView {
    match class {
        Class::Skip { subject, reason } => skip_noted(stats, subject, reason, at),
        _ => stats,
    }
}

fn classify_text(
    subject: Subject,
    context: &'static str,
    text: Option<String>,
    empty: SkipReason,
    html: Option<String>,
    delivery: Delivery,
    max_input_chars: usize,
    stats: &mut Stats,
    at: Option<u64>,
) -> (r: Classified)
    requires
        old(stats)@.wf(),
    ensures
        final(stats)@.wf(),
        ({
            let class = classified_text(
                subject@,
                context@,
                opt_text(text),
                empty,
                opt_text(html),
                delivery@,
                max_input_chars,
            );
            &&& carries_out(r, class, at)
            &&& final(stats)@ == class_noted(old(stats)@, class, at)
        }),
{
    match text {
        None => Classified::Skipped(record_skip(stats, &subject, empty, at)),
        Some(plain) => {
            let html_too_long: bool = match &html {
                Some(h) => char_count(h.as_str()) > max_input_chars,
                None => false,
            };
            if char_count(plain.as_str()) > max_input_chars || html_too_long {
                return Classified::Skipped(
                    record_skip(stats, &subject, SkipReason::InputTooLong, at),
                );
            }
            let input = match html {
                Some(html) => TranslationInput::Html { html, plain },
                None => TranslationInput::Text { plain },
            };
            Classified::Detect(Job { subject, context, input, delivery })
        },
    }
}

fn html_of(formatted: &Option<FormattedBody>) -> (r: Option<String>)
    ensures
        opt_text(r) == html_part(crate::message::formatted_view(*formatted)),
{
    match formatted {
        Some(f) => if f.html {
            Some(strip_mx_reply(f.body.as_str()))
        } else {
            None
        },
        None => None,
    }
}

fn classify_body(
    event: &MessageEvent,
    text: &TextBody,
    max_input_chars: usize,
    stats: &mut Stats,
    at: Option<u64>,
) -> (r: Classified)
    requires
        old(stats)@.wf(),
    ensures
        final(stats)@.wf(),
        carries_out(r, body_class(event@, text@, max_input_chars), at),
        final(stats)@ == class_noted(
            old(stats)@,
            body_class(event@, text@, max_input_chars),
            at,
        ),
{
    let subject = describe_message(event, event.msgtype.msgtype(), "body");
    let delivery = Delivery::New {
        thread_root: resolve_thread_root(event),
        in_thread: is_in_thread(event),
    };
    classify_text(
        subject,
        "message",
        translatable_body(text.body.as_str()),
        SkipReason::EmptyText,
        html_of(&text.formatted),
        delivery,
        max_input_chars,
        stats,
        at,
    )
}

/// Decides what a message of its own asks for: its caption or its body is
/// translated, an administrator's command is carried out, and everything else
/// is skipped for a reason. Notices are never translated, for they are what
/// bots write, this one included.
pub fn classify_message(
    event: &MessageEvent,
    max_input_chars: usize,
    stats: &mut Stats,
    at: Option<u64>,
) -> (r: Classified)
    requires
        old(stats)@.wf(),
    ensures
        final(stats)@.wf(),
        carries_out(r, class_of(event@, max_input_chars), at),
        final(stats)@ == class_noted(old(stats)@, class_of(event@, max_input_chars), at),
{
    if let Some((kind, caption)) = media_caption_kind(&event.msgtype) {
        let subject = describe_message(event, kind, "caption");
        let text: Option<String> = match caption {
            Some(c) => nonblank_text(c),
            None => None,
        };
        let delivery = Delivery::New {
            thread_root: resolve_thread_root(event),
            in_thread: is_in_thread(event),
        };
        return classify_text(
            subject,
            kind,
            text,
            SkipReason::NoCaption,
            None,
            delivery,
            max_input_chars,
            stats,
            at,
        );
    }
    match &event.msgtype {
        MessageType::Text(text) => {
            let raw = trim(text.body.as_str());
            match parse_command(raw.as_str()) {
                Some(command) => Classified::Command(command),
                None => classify_body(event, text, max_input_chars, stats, at),
            }
        },
        MessageType::Emote(text) => classify_body(event, text, max_input_chars, stats, at),
        other => {
            let subject = describe_message(event, other.msgtype(), "body");
            Classified::Skipped(record_skip(stats, &subject, SkipReason::UnsupportedMsgtype, at))
        },
    }
}

// ── Edits ───────────────────────────────────────────────────────────────────
/// An edit as the diagnostics describe it.
pub open spec fn edit_subject(edit: EditView) -> SubjectView {
    SubjectView {
        event_id: edit.original_event_id,
        room_id: edit.room_id,
        sender: None,
        msgtype: edit.new_content.name(),
        text_source: "edit"@,
    }
}

/// What an edit asks for, given the bot's translation of its original.
pub open spec fn edit_class(
    edit: EditView,
    bot_event_id: Option<Seq<char>>,
    max_input_chars: usize,
) -> Class {
    match bot_event_id {
        None => Class::Skip {
            subject: edit_subject(edit),
            reason: SkipReason::EditUnknownEvent,
        },
        Some(id) => classified_text(
            edit_subject(edit),
            "edit"@,
            edit.new_content.edit_text(),
            SkipReason::EditNoTranslatableText,
            None,
            DeliveryView::Edit { bot_event_id: id },
            max_input_chars,
        ),
    }
}

/// Decides what an edit asks for, given the bot's translation of its original:
/// only the new content counts, and it replaces the translation in place.
pub fn classify_edit_given(
    edit: &EditEvent,
    bot_event_id: Option<String>,
    max_input_chars: usize,
    stats: &mut Stats,
    at: Option<u64>,
) -> (r: Classified)
    requires
        old(stats)@.wf(),
    ensures
        final(stats)@.wf(),
        carries_out(r, edit_class(edit@, opt_text(bot_event_id), max_input_chars), at),
        final(stats)@ == class_noted(
            old(stats)@,
            edit_class(edit@, opt_text(bot_event_id), max_input_chars),
            at,
        ),
{
    let subject = Subject {
        event_id: edit.original_event_id.clone(),
        room_id: edit.room_id.clone(),
        sender: None,
        msgtype: edit.new_content.msgtype().to_owned(),
        text_source: "edit",
    };
    match bot_event_id {
        None => Classified::Skipped(
            record_skip(stats, &subject, SkipReason::EditUnknownEvent, at),
        ),
        Some(bot_event_id) => classify_text(
            subject,
            "edit",
            extract_edit_text(&edit.new_content),
            SkipReason::EditNoTranslatableText,
            None,
            Delivery::Edit { bot_event_id },
            max_input_chars,
            stats,
            at,
        ),
    }
}

/// The bot's translation that a store entry names: none where there is no
/// entry, or where it is no event ID.
pub open spec fn named_translation(found: Option<Seq<char>>) -> Option<Seq<char>> {
    match found {
        Some(text) => match parsed_event_id(text) {
            Ok(id) => Some(id),
            Err(_) => None,
        },
        None => None,
    }
}

/// The bot's translation that a store entry names.
pub fn read_translation(found: &Option<String>) -> (r: Option<String>)
    ensures
        opt_text(r) == named_translation(opt_text(*found)),
{
    match found {
        Some(text) => match parse_event_id(text.as_str()) {
            Ok(id) => Some(id),
            Err(_) => None,
        },
        None => None,
    }
}

/// Decides what an edit asks for, given what the store has of its original.
/// `None` where the store could not be asked: the edit is then dropped.
pub fn classify_edit(
    edit: &EditEvent,
    lookup: &Lookup,
    max_input_chars: usize,
    stats: &mut Stats,
    at: Option<u64>,
) -> (r: Option<Classified>)
    requires
        old(stats)@.wf(),
    ensures
        final(stats)@.wf(),
        match lookup_view(*lookup) {
            Err(_) => r is None && final(stats)@ == old(stats)@,
            Ok(found) => {
                let class = edit_class(edit@, named_translation(found), max_input_chars);
                &&& r matches Some(c) && carries_out(c, class, at)
                &&& final(stats)@ == class_noted(old(stats)@, class, at)
            },
        },
{
    match lookup {
        Err(_) => None,
        Ok(found) => {
            let bot_event_id = read_translation(found);
            Some(classify_edit_given(edit, bot_event_id, max_input_chars, stats, at))
        },
    }
}

// ── Detection ───────────────────────────────────────────────────────────────
/// A job whose language and targets are known.
pub struct Translation {
    pub job: Job,
    pub source: String,
    pub targets: Vec<String>,
    pub reply_to_original: bool,
    pub thread_replies: bool,
    pub silent_messages: bool,
}

pub struct TranslationView {
    pub job: JobView,
    pub source: Seq<char>,
    pub targets: Seq<Seq<char>>,
    pub reply_to_original: bool,
    pub thread_replies: bool,
    pub silent_messages: bool,
}

impl View for Translation {
    type V = TranslationView;

    open spec fn view(&self) -> TranslationView {
        TranslationView {
            job: self.job@,
            source: self.source@,
            targets: texts(self.targets@),
            reply_to_original: self.reply_to_original,
            thread_replies: self.thread_replies,
            silent_messages: self.silent_messages,
        }
    }
}

/// What was decided once the language of a text was detected.
pub enum Detected {
    /// The event is skipped; the row is for the durable history.
    Skipped(DbEventOutcome),
    /// Translate into the targets.
    Translate(Translation),
}

/// Whether `r` is what follows once the targets of a text in `source`, or the
/// reason for which there are none, are known.
pub open spec fn follows_targets<C>(
    r: Detected,
    job: JobView,
    source: Seq<char>,
    targets: Result<Seq<Seq<char>>, SkipReason>,
    settings: EffectiveTranslationConfig<C>,
    at: Option<u64>,
) -> bool {
    match targets {
        Err(reason) => r matches Detected::Skipped(row) && row@ == stored(
            skip_outcome(job.subject, reason, at),
        ),
        Ok(langs) => r matches Detected::Translate(t) && t@ == (TranslationView {
            job,
            source,
            targets: langs,
            reply_to_original: settings.reply_to_original,
            thread_replies: settings.thread_replies,
            silent_messages: settings.silent_messages,
        }),
    }
}

/// The statistics once the targets, or the reason for which there are none, are
/// known.
pub open spec fn targets_noted(
    stats: StatsView,
    job: JobView,
    targets: Result<Seq<Seq<char>>, SkipReason>,
    at: Option<u64>,
) -> StatsView {
    match targets {
        Err(reason) => skip_noted(stats, job.subject, reason, at),
        Ok(_) => stats,
    }
}

/// Decides once the targets of a text in `source`, or the reason for which
/// there are none, are known.
pub fn on_targets<C>(
    job: Job,
    source: String,
    targets: Result<Vec<String>, SkipReason>,
    settings: &EffectiveTranslationConfig<C>,
    stats: &mut Stats,
    at: Option<u64>,
) -> (r: Detected)
    requires
        old(stats)@.wf(),
    ensures
        final(stats)@.wf(),
        follows_targets(r, job@, source@, targets_view(targets), *settings, at),
        final(stats)@ == targets_noted(old(stats)@, job@, targets_view(targets), at),
{
    match targets {
        Err(reason) => Detected::Skipped(record_skip(stats, &job.subject, reason, at)),
        Ok(targets) => Detected::Translate(
            Translation {
                job,
                source,
                targets,
                reply_to_original: settings.reply_to_original,
                thread_replies: settings.thread_replies,
                silent_messages: settings.silent_messages,
            },
        ),
    }
}

/// Decides after a detection, with the settings of the room: the text is
/// translated into the other configured languages, or skipped where the
/// detection failed, is too uncertain, or leaves nothing to translate into. The
/// detection is too uncertain exactly when `confidence < min_confidence`.
pub fn on_detected<C: PartialOrd>(
    job: Job,
    detected: Option<DetectResult<C>>,
    settings: &EffectiveTranslationConfig<C>,
    stats: &mut Stats,
    at: Option<u64>,
) -> (r: Detected)
    requires
        old(stats)@.wf(),
    ensures
        final(stats)@.wf(),
        detected is None ==> {
            let failed = Err(SkipReason::LangDetectFailed);
            &&& follows_targets(r, job@, seq![], failed, *settings, at)
            &&& final(stats)@ == targets_noted(old(stats)@, job@, failed, at)
        },
        detected matches Some(d) ==> exists|below: bool|
            {
                let targets = targets_for(below, d.language@, texts(settings.langs@));
                &&& #[trigger] call_ensures(
                    C::lt,
                    (&d.confidence, &settings.min_confidence),
                    below,
                )
                &&& follows_targets(r, job@, d.language@, targets, *settings, at)
                &&& final(stats)@ == targets_noted(old(stats)@, job@, targets, at)
            },
{
    match detected {
        None => on_targets(
            job,
            String::new(),
            Err(SkipReason::LangDetectFailed),
            settings,
            stats,
            at,
        ),
        Some(d) => {
            let targets = resolve_translation_targets(
                d.language.as_str(),
                d.confidence,
                settings,
            );
            on_targets(job, d.language, targets, settings, stats, at)
        },
    }
}

// ── Sending ─────────────────────────────────────────────────────────────────
/// What was decided once the targets were translated into.
pub enum Translated {
    /// Nothing is sent; the row is for the durable history.
    Suppressed(DbEventOutcome),
    /// Send this message.
    Send(MessageContent),
}

/// The message that delivers `lines`.
pub open spec fn content_for(t: TranslationView, lines: Seq<TranslatedLineView>) -> ContentView {
    let (plain, html) = bodies(lines);
    match t.job.delivery {
        DeliveryView::New { thread_root, in_thread } => ContentView {
            msgtype: html_message(plain, html, t.silent_messages),
            relates_to: relation_to(
                t.job.subject.event_id,
                thread_root,
                t.reply_to_original,
                t.thread_replies,
                in_thread,
            ),
        },
        DeliveryView::Edit { bot_event_id } => edit_of(
            bot_event_id,
            plain,
            html,
            t.silent_messages,
        ),
    }
}

/// Whether `r` is what follows a batch.
pub open spec fn follows_batch(
    r: Translated,
    t: TranslationView,
    batch: Result<Seq<TranslatedLineView>, BatchFailureView>,
    at: Option<u64>,
) -> bool {
    match batch {
        Ok(lines) => r matches Translated::Send(content) && content@ == content_for(t, lines),
        Err(failure) => r matches Translated::Suppressed(row) && row@ == stored(
            suppressed_outcome(failure, t.job.subject.room_id, t.job.subject.event_id, at),
        ),
    }
}

/// The statistics after a batch.
pub open spec fn batch_noted(
    stats: StatsView,
    t: TranslationView,
    batch: Result<Seq<TranslatedLineView>, BatchFailureView>,
    at: Option<u64>,
) -> StatsView {
    match batch {
        Ok(_) => stats,
        Err(failure) => suppression_noted(
            stats,
            failure,
            t.job.subject.room_id,
            t.job.subject.event_id,
            at,
        ),
    }
}

/// Decides after a batch: the lines become one message, a failed batch is
/// suppressed.
pub fn on_translated(
    t: &Translation,
    batch: &Result<Vec<TranslatedLine>, TranslationBatchFailure>,
    stats: &mut Stats,
    at: Option<u64>,
) -> (r: Translated)
    requires
        old(stats)@.wf(),
    ensures
        final(stats)@.wf(),
        follows_batch(r, t@, batch_view(*batch), at),
        final(stats)@ == batch_noted(old(stats)@, t@, batch_view(*batch), at),
{
    match batch {
        Err(failure) => Translated::Suppressed(
            log_suppressed_translation(
                stats,
                failure,
                t.job.subject.room_id.as_str(),
                t.job.subject.event_id.as_str(),
                at,
            ),
        ),
        Ok(lines) => {
            let (plain, html) = build_translation_bodies(lines);
            match &t.job.delivery {
                Delivery::New { thread_root, in_thread } => {
                    let mut content = make_translation_content(plain, html, t.silent_messages);
                    content.relates_to = make_relation(
                        t.job.subject.event_id.as_str(),
                        thread_root.as_str(),
                        t.reply_to_original,
                        t.thread_replies,
                        *in_thread,
                    );
                    Translated::Send(content)
                },
                Delivery::Edit { bot_event_id } => Translated::Send(
                    make_edit_content(bot_event_id.as_str(), plain, html, t.silent_messages),
                ),
            }
        },
    }
}

/// That an event was translated, for the store.
pub struct Mapping {
    pub original_event_id: String,
    pub bot_event_id: String,
    pub room_id: String,
}

pub struct MappingView {
    pub original_event_id: Seq<char>,
    pub bot_event_id: Seq<char>,
    pub room_id: Seq<char>,
}

pub open spec fn opt_mapping(m: Option<Mapping>) -> Option<MappingView> {
    match m {
        Some(mapping) => Some(
            MappingView {
                original_event_id: mapping.original_event_id@,
                bot_event_id: mapping.bot_event_id@,
                room_id: mapping.room_id@,
            },
        ),
        None => None,
    }
}

/// What the store learns once a message was sent as `sent`, or not at all: a
/// new translation is remembered, an edited one is remembered already.
pub open spec fn mapping_for(t: TranslationView, sent: Option<Seq<char>>) -> Option<MappingView> {
    match (t.job.delivery, sent) {
        (DeliveryView::New { .. }, Some(bot_event_id)) => Some(
            MappingView {
                original_event_id: t.job.subject.event_id,
                bot_event_id,
                room_id: t.job.subject.room_id,
            },
        ),
        _ => None,
    }
}

/// Notes that the message was sent as the event `sent`, or that it could not
/// be. Returns the row for the durable history, and what the store is to
/// remember.
pub fn on_sent(
    t: &Translation,
    sent: Option<String>,
    duration: Interval,
    stats: &mut Stats,
    at: Option<u64>,
) -> (r: (DbEventOutcome, Option<Mapping>))
    requires
        old(stats)@.wf(),
    ensures
        final(stats)@.wf(),
        final(stats)@ == translation_noted(
            old(stats)@,
            t@.job.subject,
            t@.source,
            t@.targets,
            sent is Some,
            duration,
            at,
        ),
        r.0@ == stored(
            translated_outcome(
                t@.job.subject,
                t@.source,
                t@.targets,
                sent is Some,
                duration,
                at,
            ),
        ),
        opt_mapping(r.1) == mapping_for(t@, opt_text(sent)),
{
    let row = record_translated(
        stats,
        &t.job.subject,
        t.source.as_str(),
        &t.targets,
        sent.is_some(),
        duration,
        at,
    );
    let mapping: Option<Mapping> = match (&t.job.delivery, sent) {
        (Delivery::New { .. }, Some(bot_event_id)) => Some(
            Mapping {
                original_event_id: t.job.subject.event_id.clone(),
                bot_event_id,
                room_id: t.job.subject.room_id.clone(),
            },
        ),
        _ => None,
    };
    (row, mapping)
}

// ── Redactions ──────────────────────────────────────────────────────────────
/// A redaction that the bot follows.
pub struct Redaction {
    /// The event that was redacted.
    pub original_event_id: String,
    /// The bot's translation of it, to be redacted too.
    pub bot_event_id: String,
}

/// The bot's translation to redact, given what the store has of the redacted
/// event: none where it has nothing, where it could not be asked, or where its
/// entry is no event ID.
pub open spec fn translation_to_redact(lookup: Result<Option<Seq<char>>, Seq<char>>) -> Option<
    Seq<char>,
> {
    match lookup {
        Ok(found) => named_translation(found),
        Err(_) => None,
    }
}

/// Follows the redaction of `original_event_id`, given what the store has of
/// that event. `None` where there is nothing to redact.
pub fn follow_redaction(original_event_id: &str, lookup: &Lookup) -> (r: Option<Redaction>)
    ensures
        match (r, translation_to_redact(lookup_view(*lookup))) {
            (Some(redaction), Some(bot_event_id)) => {
                &&& redaction.original_event_id@ == original_event_id@
                &&& redaction.bot_event_id@ == bot_event_id
            },
            (None, None) => true,
            _ => false,
        },
{
    match lookup {
        Ok(found) => match read_translation(found) {
            Some(bot_event_id) => Some(
                Redaction { original_event_id: original_event_id.to_owned(), bot_event_id },
            ),
            None => None,
        },
        Err(_) => None,
    }
}

impl Redaction {
    /// The event that the store is to forget: the redacted one, but only once
    /// the bot's translation of it is redacted.
    pub fn on_redacted(self, redacted: bool) -> (r: Option<String>)
        ensures
            opt_text(r) == if redacted {
                Some(self.original_event_id@)
            } else {
                None
            },
    {
        if redacted {
            Some(self.original_event_id)
        } else {
            None
        }
    }
}

// ── Laws ────────────────────────────────────────────────────────────────────
/// The body of an edit is never translated: whatever an edit carries beside its
/// new content makes no difference.
pub proof fn law_edit_body_is_ignored(event: MessageEventView, other_body: MessageView)
    requires
        event.relates_to matches Some(RelationView::Replacement { .. }),
    ensures
        arrival_of(event) is Edit,
        arrival_of(event) == arrival_of(MessageEventView { msgtype: other_body, ..event }),
{
}

/// A notice is never translated, and neither is any message that is no text, no
/// emote and no medium with a caption.
pub proof fn law_only_user_text_is_translated(event: MessageEventView, max_input_chars: usize)
    ensures
        event.msgtype is Notice ==> class_of(event, max_input_chars) == (Class::Skip {
            subject: message_subject(event, "m.notice"@, "body"@),
            reason: SkipReason::UnsupportedMsgtype,
        }),
        class_of(event, max_input_chars) is Translate ==> event.msgtype is Text
            || event.msgtype is Emote || event.msgtype.caption_slot() matches Some((_, Some(_))),
        class_of(event, max_input_chars) is Command ==> event.msgtype is Text,
{
}

/// What goes to the backend is within the limit, be it for detection, as HTML or
/// as the plain text that takes the place of HTML, for a message and for an edit
/// alike. The plain text is not empty, and that of a message is without white
/// space around it.
pub proof fn law_backend_input_is_bounded(
    event: MessageEventView,
    edit: EditView,
    bot_event_id: Option<Seq<char>>,
    max_input_chars: usize,
)
    ensures
        class_of(event, max_input_chars) matches Class::Translate(job) ==> {
            let plain = job.input.plain_part();
            &&& request_for(job.input).text.len() <= max_input_chars
            &&& 0 < plain.len() <= max_input_chars
            &&& exists|s: Seq<char>| plain == #[trigger] trimmed(s)
        },
        edit_class(edit, bot_event_id, max_input_chars) matches Class::Translate(job) ==> {
            &&& request_for(job.input).text == job.input.plain_part()
            &&& 0 < job.input.plain_part().len() <= max_input_chars
        },
{
    if let Class::Translate(job) = class_of(event, max_input_chars) {
        let plain = job.input.plain_part();
        match event.msgtype.caption_slot() {
            Some((_, Some(c))) => {
                assert(plain == trimmed(c));
            },
            _ => {
                let text = match event.msgtype {
                    MessageView::Text(t) => t,
                    MessageView::Emote(t) => t,
                    _ => arbitrary(),
                };
                let rest = crate::markup::without_reply_fallback(trimmed(text.body));
                assert(plain == trimmed(rest));
            },
        }
    }
}

/// A message leads to at most one message of the bot, and a batch in which one
/// target failed leads to none.
pub proof fn law_failed_batch_sends_nothing(
    r: Translated,
    t: TranslationView,
    failure: BatchFailureView,
    at: Option<u64>,
)
    requires
        follows_batch(r, t, Err(failure), at),
    ensures
        !(r is Send),
{
}

/// The store learns of a translation exactly when a new one was sent, and it
/// learns of it under the event that was translated.
pub proof fn law_mapping_follows_sending(t: TranslationView, sent: Option<Seq<char>>)
    ensures
        mapping_for(t, sent) is Some <==> (t.job.delivery is New && sent is Some),
        mapping_for(t, sent) matches Some(m) ==> m.original_event_id == t.job.subject.event_id
            && Some(m.bot_event_id) == sent,
{
}

/// An edit is delivered in place: as a replacement of the bot's translation, of
/// the same type as a new one, without touching the store.
pub proof fn law_edit_replaces_in_place(
    edit: EditView,
    bot_event_id: Seq<char>,
    max_input_chars: usize,
    t: TranslationView,
    lines: Seq<TranslatedLineView>,
    sent: Option<Seq<char>>,
)
    requires
        edit_class(edit, Some(bot_event_id), max_input_chars) == Class::Translate(t.job),
    ensures
        content_for(t, lines).relates_to == Some(
            RelationView::Replacement {
                event_id: bot_event_id,
                new_content: html_message(
                    bodies(lines).0,
                    bodies(lines).1,
                    t.silent_messages,
                ),
            },
        ),
        mapping_for(t, sent) is None,
{
}

/// Whatever becomes of a message that is not a command, it leaves a trace: the
/// newest outcome of the history is about it.
pub proof fn law_every_end_is_noted(
    stats: StatsView,
    job: JobView,
    reason: SkipReason,
    failure: BatchFailureView,
    source: Seq<char>,
    targets: Seq<Seq<char>>,
    send_ok: bool,
    duration: Interval,
    at: Option<u64>,
)
    requires
        stats.wf(),
    ensures
        skip_noted(stats, job.subject, reason, at).recent.last().event_id == job.subject.event_id,
        suppression_noted(
            stats,
            failure,
            job.subject.room_id,
            job.subject.event_id,
            at,
        ).recent.last().event_id == job.subject.event_id,
        translation_noted(
            stats,
            job.subject,
            source,
            targets,
            send_ok,
            duration,
            at,
        ).recent.last().event_id == job.subject.event_id,
{
}

/// A translation that was sent and recorded is found by whatever comes later: a
/// repeated delivery of its event, an edit or a redaction. The two cases in
/// which its row leaves at once are left out, as where it is recorded.
pub proof fn law_sent_translation_is_found(
    rows: Seq<RowView>,
    t: TranslationView,
    bot_event_id: Seq<char>,
    now: i64,
)
    requires
        one_row_each(rows),
        rows.len() <= TRANSLATIONS_ROW_CAP,
        t.job.delivery is New,
        row_at(rows, t.job.subject.event_id) matches Some(i) ==> rows[i].created_at >= now
            - TRANSLATIONS_MAX_AGE_SECS,
        row_at(rows, t.job.subject.event_id) is None ==> (rows.len() < TRANSLATIONS_ROW_CAP
            || exists|i: int| 0 <= i < rows.len() && (#[trigger] rows[i]).created_at <= now),
    ensures
        mapping_for(t, Some(bot_event_id)) matches Some(m) && looked_up(
            recorded(
                rows,
                RowView {
                    original_event_id: m.original_event_id,
                    bot_event_id: m.bot_event_id,
                    room_id: m.room_id,
                    created_at: now,
                },
            ),
            t.job.subject.event_id,
        ) == Some(bot_event_id),
{
    law_recorded_translation_is_found(
        rows,
        RowView {
            original_event_id: t.job.subject.event_id,
            bot_event_id,
            room_id: t.job.subject.room_id,
            created_at: now,
        },
    );
}

/// Once a redaction was followed and the event forgotten, a second redaction of
/// the same event finds nothing to redact.
pub proof fn law_redaction_is_followed_once(rows: Seq<RowView>, event_id: Seq<char>)
    requires
        one_row_each(rows),
    ensures
        translation_to_redact(Ok(looked_up(removed(rows, event_id), event_id))) is None,
{
    law_removed_translation_is_gone(rows, event_id, event_id);
}

/// An edit is what replaces another event, with the new content that it names;
/// everything else is a message of its own.
pub proof fn law_arrival(event: MessageEventView)
    ensures
        event.relates_to matches Some(RelationView::Replacement { event_id, new_content })
            ==> arrival_of(event) == ArrivalView::Edit(
            EditView { original_event_id: event_id, room_id: event.room_id, new_content },
        ),
        !(event.relates_to matches Some(RelationView::Replacement { .. })) ==> arrival_of(event)
            == ArrivalView::Message(event),
{
}

/// What comes of a text: nothing where there is none, nothing where it or its
/// HTML form is longer than the limit, and else a translation of the whole text,
/// as HTML where it has an HTML form.
pub open spec fn translates(
    class: Class,
    text: Option<Seq<char>>,
    html: Option<Seq<char>>,
    max_input_chars: usize,
    empty: SkipReason,
) -> bool {
    match (text, html) {
        (None, _) => class matches Class::Skip { reason, .. } && reason == empty,
        (Some(plain), None) => if plain.len() <= max_input_chars {
            class matches Class::Translate(job) && job.input == (InputView::Text { plain })
        } else {
            class matches Class::Skip { reason, .. } && reason == SkipReason::InputTooLong
        },
        (Some(plain), Some(h)) => if plain.len() <= max_input_chars && h.len() <= max_input_chars {
            class matches Class::Translate(job) && job.input == (InputView::Html { html: h, plain })
        } else {
            class matches Class::Skip { reason, .. } && reason == SkipReason::InputTooLong
        },
    }
}

/// The subject of a class, as far as it has one.
pub open spec fn subject_of(class: Class) -> Option<SubjectView> {
    match class {
        Class::Skip { subject, .. } => Some(subject),
        Class::Translate(job) => Some(job.subject),
        Class::Command(_) => None,
    }
}

/// Whether `class` is about `event`, as a message of type `msgtype` whose text
/// comes from `text_source`.
pub open spec fn is_about(
    class: Class,
    event: MessageEventView,
    msgtype: Seq<char>,
    text_source: Seq<char>,
) -> bool {
    subject_of(class) == Some(
        SubjectView {
            event_id: event.event_id,
            room_id: event.room_id,
            sender: Some(event.sender),
            msgtype,
            text_source,
        },
    )
}

/// The body of a text or an emote is translated, unless a text is a command; so
/// is its HTML form, without its reply block, where the format is HTML. The
/// outcome is about the message and says that the text was its body.
pub proof fn law_body_is_translated(event: MessageEventView, text: TextView, max: usize)
    requires
        event.msgtype == MessageView::Emote(text) || (event.msgtype == MessageView::Text(text)
            && command_in(trimmed(text.body)) is None),
    ensures
        ({
            let class = class_of(event, max);
            let html = match text.formatted {
                Some(f) => if f.html {
                    Some(without_mx_reply(f.body))
                } else {
                    None
                },
                None => None,
            };
            &&& translates(class, body_text(text.body), html, max, SkipReason::EmptyText)
            &&& is_about(class, event, event.msgtype.name(), "body"@)
            &&& class matches Class::Translate(job) ==> job.context == "message"@
        }),
{
}

/// A text that is a command is carried out, and only a text can be one.
pub proof fn law_commands_are_texts(event: MessageEventView, max: usize)
    ensures
        class_of(event, max) matches Class::Command(command) ==> (
        event.msgtype matches MessageView::Text(text) && command_in(trimmed(text.body)) == Some(
            command,
        )),
        event.msgtype matches MessageView::Text(text) ==> (command_in(trimmed(text.body))
            matches Some(command) ==> class_of(event, max) == Class::Command(command)),
{
}

/// The caption of an image, a video, an audio or a file is translated where it
/// is not blank, always as plain text. The outcome is about the message and says
/// that the text was its caption.
pub proof fn law_caption_is_translated(event: MessageEventView, m: MediaView, max: usize)
    requires
        event.msgtype == MessageView::Image(m) || event.msgtype == MessageView::Video(m)
            || event.msgtype == MessageView::Audio(m) || event.msgtype == MessageView::File(m),
    ensures
        ({
            let class = class_of(event, max);
            let kind = match event.msgtype {
                MessageView::Image(_) => "image"@,
                MessageView::Video(_) => "video"@,
                MessageView::Audio(_) => "audio"@,
                _ => "file"@,
            };
            let caption = match m.filename {
                Some(name) => if name == m.body {
                    None
                } else {
                    nonblank(m.body)
                },
                None => None,
            };
            &&& translates(class, caption, None, max, SkipReason::NoCaption)
            &&& is_about(class, event, kind, "caption"@)
            &&& class matches Class::Translate(job) ==> job.context == kind
        }),
{
}

/// Every other message is skipped for its type, which the outcome names.
pub proof fn law_other_messages_are_skipped(event: MessageEventView, max: usize)
    requires
        event.msgtype is Notice || event.msgtype is VerificationRequest || event.msgtype is Other,
    ensures
        class_of(event, max) matches Class::Skip { reason, .. } && reason
            == SkipReason::UnsupportedMsgtype,
        is_about(class_of(event, max), event, event.msgtype.name(), "body"@),
{
}

/// What an edit asks for: nothing where the original has no translation, else
/// the translation of the text of its new content, as plain text, in place of
/// the old one. The outcome is about the original.
pub proof fn law_edits_are_classified(edit: EditView, bot_event_id: Option<Seq<char>>, max: usize)
    ensures
        ({
            let class = edit_class(edit, bot_event_id, max);
            &&& subject_of(class) == Some(
                SubjectView {
                    event_id: edit.original_event_id,
                    room_id: edit.room_id,
                    sender: None,
                    msgtype: edit.new_content.name(),
                    text_source: "edit"@,
                },
            )
            &&& bot_event_id is None ==> (class matches Class::Skip { reason, .. } && reason
                == SkipReason::EditUnknownEvent)
            &&& bot_event_id matches Some(id) ==> {
                &&& translates(
                    class,
                    edit.new_content.edit_text(),
                    None,
                    max,
                    SkipReason::EditNoTranslatableText,
                )
                &&& class matches Class::Translate(job) ==> job.context == "edit"@ && job.delivery
                    == (DeliveryView::Edit { bot_event_id: id })
            }
        }),
{
}

/// A translation stands where its original stands. Whatever message is
/// translated, be it a text, an emote or a caption: where it lies in a thread,
/// the translation is a message of that thread that replies to it; where it does
/// not, the translation opens a thread on it or is a plain reply to it, as the
/// room has it. Where replies are off it relates to nothing.
pub proof fn law_translation_stays_with_its_original(
    event: MessageEventView,
    max: usize,
    t: TranslationView,
    lines: Seq<TranslatedLineView>,
)
    requires
        class_of(event, max) == Class::Translate(t.job),
    ensures
        ({
            let relation = content_for(t, lines).relates_to;
            &&& !t.reply_to_original ==> relation is None
            &&& t.reply_to_original ==> match event.relates_to {
                Some(RelationView::Thread { event_id, .. }) => relation == Some(
                    RelationView::Thread { event_id, in_reply_to: Some(event.event_id) },
                ),
                _ => relation == Some(
                    if t.thread_replies {
                        RelationView::Thread {
                            event_id: event.event_id,
                            in_reply_to: Some(event.event_id),
                        }
                    } else {
                        RelationView::Reply { event_id: event.event_id }
                    },
                ),
            }
        }),
{
}

/// What is sent holds the lines of the translation, plain and as HTML: as a
/// message of its own, or as the replacement of an earlier translation. It is a
/// notice exactly where the room wants silent messages.
pub proof fn law_content_holds_the_lines(t: TranslationView, lines: Seq<TranslatedLineView>)
    ensures
        ({
            let content = content_for(t, lines);
            let new = TextView {
                body: bodies(lines).0,
                formatted: Some(FormattedView { html: true, body: bodies(lines).1 }),
            };
            let star = TextView { body: "* "@ + bodies(lines).0, formatted: new.formatted };
            let typed = |text: TextView|
                if t.silent_messages {
                    MessageView::Notice(text)
                } else {
                    MessageView::Text(text)
                };
            &&& t.job.delivery is New ==> content.msgtype == typed(new)
            &&& t.job.delivery matches DeliveryView::Edit { bot_event_id } ==> {
                &&& content.msgtype == typed(star)
                &&& content.relates_to == Some(
                    RelationView::Replacement { event_id: bot_event_id, new_content: typed(new) },
                )
            }
        }),
{
}

/// What the store learns names the room too, and what it says of an event is
/// taken for a translation only where it is an event ID.
pub proof fn law_mappings(
    t: TranslationView,
    sent: Seq<char>,
    found: Option<Seq<char>>,
    id: Seq<char>,
)
    ensures
        t.job.delivery is New ==> mapping_for(t, Some(sent)) == Some(
            MappingView {
                original_event_id: t.job.subject.event_id,
                bot_event_id: sent,
                room_id: t.job.subject.room_id,
            },
        ),
        mapping_for(t, None) is None,
        named_translation(found) == Some(id) <==> (found matches Some(text) && parsed_event_id(text)
            == Ok::<Seq<char>, Seq<char>>(id)),
        translation_to_redact(Ok(found)) == named_translation(found),
{
}

/// Where the store could not be asked, nothing is redacted.
pub proof fn law_no_redaction_without_the_store(problem: Seq<char>)
    ensures
        translation_to_redact(Err(problem)) is None,
{
}

/// A decision on a class does what the class says: a skip gives the stored row
/// of that skip and counts it, a command is handed on, and a text goes to the
/// detection; the last two change no statistics.
pub proof fn law_classes_are_carried_out(
    r: Classified,
    stats: StatsView,
    subject: SubjectView,
    reason: SkipReason,
    command: CommandView,
    job: JobView,
    at: Option<u64>,
)
    ensures
        carries_out(r, Class::Skip { subject, reason }, at) <==> (r matches Classified::Skipped(row)
            && row@ == stored(skip_outcome(subject, reason, at))),
        carries_out(r, Class::Command(command), at) <==> (r matches Classified::Command(c) && c@
            == command),
        carries_out(r, Class::Translate(job), at) <==> (r matches Classified::Detect(j) && j@
            == job),
        class_noted(stats, Class::Skip { subject, reason }, at) == skip_noted(
            stats,
            subject,
            reason,
            at,
        ),
        class_noted(stats, Class::Command(command), at) == stats,
        class_noted(stats, Class::Translate(job), at) == stats,
{
}

/// Once the targets are known, the job goes on to be translated into them, as
/// the room has it, or it is skipped for the reason and that is counted.
pub proof fn law_targets_are_followed<C>(
    r: Detected,
    stats: StatsView,
    job: JobView,
    source: Seq<char>,
    langs: Seq<Seq<char>>,
    reason: SkipReason,
    room: EffectiveTranslationConfig<C>,
    at: Option<u64>,
)
    ensures
        follows_targets(r, job, source, Ok(langs), room, at) <==> (r matches Detected::Translate(t)
            && t@.job == job && t@.source == source && t@.targets == langs && t@.reply_to_original
            == room.reply_to_original && t@.thread_replies == room.thread_replies
            && t@.silent_messages == room.silent_messages),
        follows_targets(r, job, source, Err(reason), room, at) <==> (
        r matches Detected::Skipped(row) && row@ == stored(skip_outcome(job.subject, reason, at))),
        targets_noted(stats, job, Ok(langs), at) == stats,
        targets_noted(stats, job, Err(reason), at) == skip_noted(stats, job.subject, reason, at),
{
}

/// Once a batch has ended, its lines are sent, or its failure is stored and
/// counted.
pub proof fn law_batches_are_followed(
    r: Translated,
    stats: StatsView,
    t: TranslationView,
    lines: Seq<TranslatedLineView>,
    failure: BatchFailureView,
    at: Option<u64>,
)
    ensures
        ({
            let (room_id, event_id) = (t.job.subject.room_id, t.job.subject.event_id);
            &&& follows_batch(r, t, Ok(lines), at) <==> (r matches Translated::Send(content)
                && content@ == content_for(t, lines))
            &&& follows_batch(r, t, Err(failure), at) <==> (r matches Translated::Suppressed(row)
                && row@ == stored(suppressed_outcome(failure, room_id, event_id, at)))
            &&& batch_noted(stats, t, Ok(lines), at) == stats
            &&& batch_noted(stats, t, Err(failure), at) == suppression_noted(
                stats,
                failure,
                room_id,
                event_id,
                at,
            )
        }),
{
}

/// A message that was translated already leaves the row of that skip, and every
/// other none; and what is to be remembered names its three IDs.
pub proof fn law_rows_and_mappings(
    row: DbEventOutcome,
    mapping: Mapping,
    subject: SubjectView,
    reason: SkipReason,
    at: Option<u64>,
)
    ensures
        skip_row(Some(row), true, subject, reason, at) <==> row@ == stored(
            skip_outcome(subject, reason, at),
        ),
        !skip_row(Some(row), false, subject, reason, at),
        skip_row(None, false, subject, reason, at),
        !skip_row(None, true, subject, reason, at),
        opt_mapping(Some(mapping)) == Some(
            MappingView {
                original_event_id: mapping.original_event_id@,
                bot_event_id: mapping.bot_event_id@,
                room_id: mapping.room_id@,
            },
        ),
        opt_mapping(None) is None,
{
}

/// Jobs and translations say what they hold.
pub proof fn law_job_views(job: Job, t: Translation, edit: EditEvent)
    ensures
        job@.subject == job.subject@ && job@.context == job.context@ && job@.input == job.input@
            && job@.delivery == job.delivery@,
        job.delivery matches Delivery::Edit { bot_event_id } ==> job@.delivery
            == (DeliveryView::Edit { bot_event_id: bot_event_id@ }),
        job.delivery matches Delivery::New { thread_root, in_thread } ==> job@.delivery
            == (DeliveryView::New { thread_root: thread_root@, in_thread }),
        t@.job == t.job@ && t@.source == t.source@ && t@.reply_to_original == t.reply_to_original
            && t@.thread_replies == t.thread_replies && t@.silent_messages == t.silent_messages,
        t@.targets.len() == t.targets@.len() && forall|i: int|
            0 <= i < t.targets@.len() ==> #[trigger] t@.targets[i] == t.targets@[i]@,
        edit@.original_event_id == edit.original_event_id@ && edit@.room_id == edit.room_id@
            && edit@.new_content == edit.new_content@,
{
}

} // verus!

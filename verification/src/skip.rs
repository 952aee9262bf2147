//! Why an event is not translated.
use vstd::prelude::*;

verus! {

/// Why an event was not translated. The text form is what appears in logs,
/// statistics and diagnostics.
#[derive(Clone, Copy, Debug, PartialEq, Eq, Structural)]
pub enum SkipReason {
    Backlog,
    RoomNotJoined,
    UnsupportedMsgtype,
    NoCaption,
    EmptyText,
    InputTooLong,
    LangDetectFailed,
    BelowConfidence,
    LanguageNotConfigured,
    NoRemainingTargets,
    TranslationSuppressed,
    DecryptFailed,
    EditUnknownEvent,
    EditNoTranslatableText,
    AlreadyTranslated,
}

impl SkipReason {
    /// The text form of the reason.
    pub open spec fn label(self) -> Seq<char> {
        match self {
            SkipReason::Backlog => "backlog"@,
            SkipReason::RoomNotJoined => "room_not_joined"@,
            SkipReason::UnsupportedMsgtype => "unsupported_msgtype"@,
            SkipReason::NoCaption => "no_caption"@,
            SkipReason::EmptyText => "empty_text"@,
            SkipReason::InputTooLong => "input_too_long"@,
            SkipReason::LangDetectFailed => "lang_detect_failed"@,
            SkipReason::BelowConfidence => "below_confidence"@,
            SkipReason::LanguageNotConfigured => "language_not_configured"@,
            SkipReason::NoRemainingTargets => "no_remaining_targets"@,
            SkipReason::TranslationSuppressed => "translation_suppressed"@,
            SkipReason::DecryptFailed => "decrypt_failed"@,
            SkipReason::EditUnknownEvent => "edit_unknown_event"@,
            SkipReason::EditNoTranslatableText => "edit_no_translatable_text"@,
            SkipReason::AlreadyTranslated => "already_translated"@,
        }
    }

    /// The text form of the reason.
    pub fn as_str(self) -> (r: &'static str)
        ensures
            r@ == self.label(),
    {
        match self {
            SkipReason::Backlog => "backlog",
            SkipReason::RoomNotJoined => "room_not_joined",
            SkipReason::UnsupportedMsgtype => "unsupported_msgtype",
            SkipReason::NoCaption => "no_caption",
            SkipReason::EmptyText => "empty_text",
            SkipReason::InputTooLong => "input_too_long",
            SkipReason::LangDetectFailed => "lang_detect_failed",
            SkipReason::BelowConfidence => "below_confidence",
            SkipReason::LanguageNotConfigured => "language_not_configured",
            SkipReason::NoRemainingTargets => "no_remaining_targets",
            SkipReason::TranslationSuppressed => "translation_suppressed",
            SkipReason::DecryptFailed => "decrypt_failed",
            SkipReason::EditUnknownEvent => "edit_unknown_event",
            SkipReason::EditNoTranslatableText => "edit_no_translatable_text",
            SkipReason::AlreadyTranslated => "already_translated",
        }
    }
}

/// No two reasons have the same text form, so that counts by text are counts by
/// reason.
pub proof fn law_reason_names_are_distinct(a: SkipReason, b: SkipReason)
    ensures
        a.label() == b.label() <==> a == b,
{
    reveal_strlit("backlog");
    reveal_strlit("room_not_joined");
    reveal_strlit("unsupported_msgtype");
    reveal_strlit("no_caption");
    reveal_strlit("empty_text");
    reveal_strlit("input_too_long");
    reveal_strlit("lang_detect_failed");
    reveal_strlit("below_confidence");
    reveal_strlit("language_not_configured");
    reveal_strlit("no_remaining_targets");
    reveal_strlit("translation_suppressed");
    reveal_strlit("decrypt_failed");
    reveal_strlit("edit_unknown_event");
    reveal_strlit("edit_no_translatable_text");
    reveal_strlit("already_translated");
    assert(a.label() == b.label() ==> a.label().len() == b.label().len() && a.label()[0]
        == b.label()[0]);
}

/// The names under which skips are counted and stored.
pub proof fn law_reason_names()
    ensures
        SkipReason::Backlog.label() == "backlog"@,
        SkipReason::RoomNotJoined.label() == "room_not_joined"@,
        SkipReason::UnsupportedMsgtype.label() == "unsupported_msgtype"@,
        SkipReason::NoCaption.label() == "no_caption"@,
        SkipReason::EmptyText.label() == "empty_text"@,
        SkipReason::InputTooLong.label() == "input_too_long"@,
        SkipReason::LangDetectFailed.label() == "lang_detect_failed"@,
        SkipReason::BelowConfidence.label() == "below_confidence"@,
        SkipReason::LanguageNotConfigured.label() == "language_not_configured"@,
        SkipReason::NoRemainingTargets.label() == "no_remaining_targets"@,
        SkipReason::TranslationSuppressed.label() == "translation_suppressed"@,
        SkipReason::DecryptFailed.label() == "decrypt_failed"@,
        SkipReason::EditUnknownEvent.label() == "edit_unknown_event"@,
        SkipReason::EditNoTranslatableText.label() == "edit_no_translatable_text"@,
        SkipReason::AlreadyTranslated.label() == "already_translated"@,
{
}

} // verus!

//! Translation settings: defaults, per-room overrides and the retry policy.
//!
//! Confidence is a type parameter: the settings only carry it, and only its
//! order is ever used.
use vstd::prelude::*;

use vstd::hash_map::StringHashMap;

use crate::interval::Interval;
use crate::text::texts;

verus! {

pub struct TranslationConfig<C> {
    pub langs: Vec<String>,
    pub min_confidence: C,
    /// Whether translations reference the original message at all. When
    /// false, translations are posted as standalone messages regardless of
    /// `thread_replies`.
    pub reply_to_original: bool,
    /// When `reply_to_original` is true: use `m.thread` instead of
    /// `m.in_reply_to`. When it is false: no effect.
    pub thread_replies: bool,
    /// Send translations as `m.notice` (non-notifying) instead of `m.text`.
    pub silent_messages: bool,
    /// Maximum concurrent requests to the translation backend.
    pub backend_concurrency: usize,
    /// Timeout for a single backend translation request.
    pub request_timeout_secs: u64,
    /// Maximum attempts for a single target language.
    pub max_attempts: usize,
    /// Initial retry backoff in milliseconds. It doubles after each retry.
    pub retry_initial_backoff_ms: u64,
    /// Overall deadline for translating one Matrix event into all targets.
    pub overall_timeout_secs: u64,
    /// Maximum input length (message body or caption, in characters) that is
    /// submitted to the translation backend.
    pub max_input_chars: usize,
}

pub struct RoomTranslationConfig<C> {
    pub langs: Option<Vec<String>>,
    pub min_confidence: Option<C>,
    pub reply_to_original: Option<bool>,
    pub thread_replies: Option<bool>,
    pub silent_messages: Option<bool>,
}

pub struct EffectiveTranslationConfig<C> {
    pub langs: Vec<String>,
    pub min_confidence: C,
    pub reply_to_original: bool,
    pub thread_replies: bool,
    pub silent_messages: bool,
}

// ── Defaults ────────────────────────────────────────────────────────────────
pub open spec fn default_lang_texts() -> Seq<Seq<char>> {
    seq!["en"@, "de"@]
}

pub fn default_langs() -> (v: Vec<String>)
    ensures
        texts(v@) == default_lang_texts(),
{
    let mut v: Vec<String> = Vec::new();
    v.push("en".to_owned());
    v.push("de".to_owned());
    assert(texts(v@) =~= default_lang_texts());
    v
}

pub fn default_true() -> (r: bool)
    ensures
        r,
{
    true
}

pub fn default_backend_concurrency() -> (n: usize)
    ensures
        n == 4,
{
    4
}

pub fn default_translation_request_timeout_secs() -> (n: u64)
    ensures
        n == 60,
{
    60
}

pub fn default_translation_max_attempts() -> (n: usize)
    ensures
        n == 3,
{
    3
}

pub fn default_translation_retry_initial_backoff_ms() -> (n: u64)
    ensures
        n == 250,
{
    250
}

pub fn default_translation_overall_timeout_secs() -> (n: u64)
    ensures
        n == 90,
{
    90
}

pub fn default_max_input_chars() -> (n: usize)
    ensures
        n == 4_000,
{
    4_000
}

impl<C> TranslationConfig<C> {
    /// The settings that hold where nothing is configured, with the given
    /// confidence threshold.
    pub fn default(min_confidence: C) -> (r: Self)
        ensures
            texts(r.langs@) == default_lang_texts(),
            r.min_confidence == min_confidence,
            r.reply_to_original,
            r.thread_replies,
            !r.silent_messages,
            r.backend_concurrency == 4,
            r.request_timeout_secs == 60,
            r.max_attempts == 3,
            r.retry_initial_backoff_ms == 250,
            r.overall_timeout_secs == 90,
            r.max_input_chars == 4_000,
    {
        TranslationConfig {
            langs: default_langs(),
            min_confidence,
            reply_to_original: true,
            thread_replies: true,
            silent_messages: false,
            backend_concurrency: default_backend_concurrency(),
            request_timeout_secs: default_translation_request_timeout_secs(),
            max_attempts: default_translation_max_attempts(),
            retry_initial_backoff_ms: default_translation_retry_initial_backoff_ms(),
            overall_timeout_secs: default_translation_overall_timeout_secs(),
            max_input_chars: default_max_input_chars(),
        }
    }

    /// The number of requests to the backend that may run at once.
    pub fn backend_permits(&self) -> (n: usize)
        ensures
            n == (if self.backend_concurrency == 0 {
                1
            } else {
                self.backend_concurrency
            }),
    {
        if self.backend_concurrency == 0 {
            1
        } else {
            self.backend_concurrency
        }
    }
}

impl<C> Default for RoomTranslationConfig<C> {
    fn default() -> (r: Self)
        ensures
            r.langs is None,
            r.min_confidence is None,
            r.reply_to_original is None,
            r.thread_replies is None,
            r.silent_messages is None,
    {
        RoomTranslationConfig {
            langs: None,
            min_confidence: None,
            reply_to_original: None,
            thread_replies: None,
            silent_messages: None,
        }
    }
}

// ── Rooms ───────────────────────────────────────────────────────────────────
/// The overrides of single rooms, by room ID.
#[verifier::reject_recursive_types(C)]
pub struct RoomTranslations<C> {
    map: StringHashMap<RoomTranslationConfig<C>>,
}

impl<C> View for RoomTranslations<C> {
    type V = Map<Seq<char>, RoomTranslationConfig<C>>;

    closed spec fn view(&self) -> Map<Seq<char>, RoomTranslationConfig<C>> {
        self.map@
    }
}

impl<C> RoomTranslations<C> {
    pub fn new() -> (r: Self)
        ensures
            r@ == Map::<Seq<char>, RoomTranslationConfig<C>>::empty(),
    {
        RoomTranslations { map: StringHashMap::new() }
    }

    /// Sets the overrides of a room.
    pub fn insert(&mut self, room_id: String, config: RoomTranslationConfig<C>)
        ensures
            final(self)@ == old(self)@.insert(room_id@, config),
    {
        self.map.insert(room_id, config);
    }

    /// The overrides of a room, if it has any.
    pub fn get(&self, room_id: &str) -> (r: Option<&RoomTranslationConfig<C>>)
        ensures
            match r {
                Some(config) => self@.contains_key(room_id@) && *config == self@[room_id@],
                None => !self@.contains_key(room_id@),
            },
    {
        self.map.get(room_id)
    }
}

/// The settings of a room without overrides, or with `room`.
pub open spec fn overridden<C>(
    default: TranslationConfig<C>,
    room: Option<RoomTranslationConfig<C>>,
) -> EffectiveTranslationConfig<C> {
    let unset = EffectiveTranslationConfig {
        langs: default.langs,
        min_confidence: default.min_confidence,
        reply_to_original: default.reply_to_original,
        thread_replies: default.thread_replies,
        silent_messages: default.silent_messages,
    };
    match room {
        None => unset,
        Some(o) => EffectiveTranslationConfig {
            langs: o.langs.unwrap_or(unset.langs),
            min_confidence: o.min_confidence.unwrap_or(unset.min_confidence),
            reply_to_original: o.reply_to_original.unwrap_or(unset.reply_to_original),
            thread_replies: o.thread_replies.unwrap_or(unset.thread_replies),
            silent_messages: o.silent_messages.unwrap_or(unset.silent_messages),
        },
    }
}

/// The overrides of `room_id` in `rooms`.
pub open spec fn room_override<C>(
    rooms: Map<Seq<char>, RoomTranslationConfig<C>>,
    room_id: Seq<char>,
) -> Option<RoomTranslationConfig<C>> {
    if rooms.contains_key(room_id) {
        Some(rooms[room_id])
    } else {
        None
    }
}

/// Whether two settings say the same, their language lists compared as texts.
pub open spec fn same_settings<C>(
    a: EffectiveTranslationConfig<C>,
    b: EffectiveTranslationConfig<C>,
) -> bool {
    &&& texts(a.langs@) == texts(b.langs@)
    &&& a.min_confidence == b.min_confidence
    &&& a.reply_to_original == b.reply_to_original
    &&& a.thread_replies == b.thread_replies
    &&& a.silent_messages == b.silent_messages
}

/// A list of the same strings.
pub fn copy_strings(v: &Vec<String>) -> (r: Vec<String>)
    ensures
        texts(r@) == texts(v@),
{
    let mut r: Vec<String> = Vec::new();
    let mut i: usize = 0;
    assert(texts(r@) =~= texts(v@).take(0));
    while i < v.len()
        invariant
            i <= v@.len(),
            texts(r@) == texts(v@).take(i as int),
        decreases v@.len() - i,
    {
        let ghost before = texts(r@);
        r.push(v[i].clone());
        assert(texts(r@) =~= before.push(texts(v@)[i as int]));
        assert(texts(v@).take(i + 1) =~= texts(v@).take(i as int).push(texts(v@)[i as int]));
        i = i + 1;
    }
    assert(texts(v@).take(i as int) =~= texts(v@));
    r
}

/// The settings that apply in `room_id`: what the room overrides, and the
/// defaults for the rest.
pub fn effective_translation_config<C: Copy>(
    default: &TranslationConfig<C>,
    room_translations: &RoomTranslations<C>,
    room_id: &str,
) -> (r: EffectiveTranslationConfig<C>)
    ensures
        same_settings(r, overridden(*default, room_override(room_translations@, room_id@))),
{
    let mut r = EffectiveTranslationConfig {
        langs: copy_strings(&default.langs),
        min_confidence: default.min_confidence,
        reply_to_original: default.reply_to_original,
        thread_replies: default.thread_replies,
        silent_messages: default.silent_messages,
    };
    if let Some(room) = room_translations.get(room_id) {
        if let Some(langs) = &room.langs {
            r.langs = copy_strings(langs);
        }
        if let Some(min_confidence) = room.min_confidence {
            r.min_confidence = min_confidence;
        }
        if let Some(reply_to_original) = room.reply_to_original {
            r.reply_to_original = reply_to_original;
        }
        if let Some(thread_replies) = room.thread_replies {
            r.thread_replies = thread_replies;
        }
        if let Some(silent_messages) = room.silent_messages {
            r.silent_messages = silent_messages;
        }
    }
    r
}

/// A setting that a room does not override is the default one, and a setting
/// that it does override is the room's own; another room has no influence.
pub proof fn law_override_changes_only_what_it_sets<C>(
    default: TranslationConfig<C>,
    rooms: Map<Seq<char>, RoomTranslationConfig<C>>,
    room_id: Seq<char>,
    other_id: Seq<char>,
    other: RoomTranslationConfig<C>,
)
    requires
        other_id != room_id,
    ensures
        overridden(default, room_override(rooms.insert(other_id, other), room_id)) == overridden(
            default,
            room_override(rooms, room_id),
        ),
        ({
            let e = overridden(default, room_override(rooms, room_id));
            match room_override(rooms, room_id) {
                None => {
                    &&& e.langs == default.langs
                    &&& e.min_confidence == default.min_confidence
                    &&& e.reply_to_original == default.reply_to_original
                    &&& e.thread_replies == default.thread_replies
                    &&& e.silent_messages == default.silent_messages
                },
                Some(o) => {
                    &&& o.langs is None ==> e.langs == default.langs
                    &&& o.langs matches Some(l) ==> e.langs == l
                    &&& o.min_confidence is None ==> e.min_confidence == default.min_confidence
                    &&& o.min_confidence matches Some(c) ==> e.min_confidence == c
                    &&& o.reply_to_original is None ==> e.reply_to_original
                        == default.reply_to_original
                    &&& o.reply_to_original matches Some(b) ==> e.reply_to_original == b
                    &&& o.thread_replies is None ==> e.thread_replies == default.thread_replies
                    &&& o.thread_replies matches Some(b) ==> e.thread_replies == b
                    &&& o.silent_messages is None ==> e.silent_messages == default.silent_messages
                    &&& o.silent_messages matches Some(b) ==> e.silent_messages == b
                },
            }
        }),
{
}

// ── Retry policy ────────────────────────────────────────────────────────────
#[derive(Clone, Copy, Debug, PartialEq, Eq, Structural)]
pub struct TranslationRetryPolicy {
    pub request_timeout: Interval,
    pub max_attempts: usize,
    pub initial_backoff: Interval,
    pub overall_timeout: Interval,
}

impl TranslationRetryPolicy {
    pub open spec fn wf(self) -> bool {
        &&& self.request_timeout.wf()
        &&& self.initial_backoff.wf()
        &&& self.overall_timeout.wf()
    }

    /// The policy of a configuration. Timeouts are at least one second, and
    /// there is at least one attempt.
    pub fn from_config<C>(config: &TranslationConfig<C>) -> (r: Self)
        ensures
            r.wf(),
            r.request_timeout.nanos == at_least_one(config.request_timeout_secs as int)
                * 1_000_000_000,
            r.max_attempts == at_least_one(config.max_attempts as int),
            r.initial_backoff.nanos == config.retry_initial_backoff_ms * 1_000_000,
            r.overall_timeout.nanos == at_least_one(config.overall_timeout_secs as int)
                * 1_000_000_000,
    {
        TranslationRetryPolicy {
            request_timeout: Interval::from_secs(
                if config.request_timeout_secs == 0 {
                    1
                } else {
                    config.request_timeout_secs
                },
            ),
            max_attempts: if config.max_attempts == 0 {
                1
            } else {
                config.max_attempts
            },
            initial_backoff: Interval::from_millis(config.retry_initial_backoff_ms),
            overall_timeout: Interval::from_secs(
                if config.overall_timeout_secs == 0 {
                    1
                } else {
                    config.overall_timeout_secs
                },
            ),
        }
    }
}

/// `n`, or one where `n` is zero.
pub open spec fn at_least_one(n: int) -> int {
    if n == 0 {
        1
    } else {
        n
    }
}

/// The overrides of a room are those that are set for it, and two settings say
/// the same exactly where each of them does.
pub proof fn law_room_settings<C>(
    rooms: Map<Seq<char>, RoomTranslationConfig<C>>,
    room_id: Seq<char>,
    a: EffectiveTranslationConfig<C>,
    b: EffectiveTranslationConfig<C>,
)
    ensures
        room_override(rooms, room_id) is Some <==> rooms.contains_key(room_id),
        room_override(rooms, room_id) matches Some(o) ==> o == rooms[room_id],
        same_settings(a, b) <==> {
            &&& a.langs@.len() == b.langs@.len() && forall|i: int|
                0 <= i < a.langs@.len() ==> #[trigger] a.langs@[i]@ == b.langs@[i]@
            &&& a.min_confidence == b.min_confidence
            &&& a.reply_to_original == b.reply_to_original
            &&& a.thread_replies == b.thread_replies
            &&& a.silent_messages == b.silent_messages
        },
{
    let (x, y) = (texts(a.langs@), texts(b.langs@));
    if x == y {
        assert(a.langs@.len() == x.len() && b.langs@.len() == y.len());
        assert forall|i: int| 0 <= i < a.langs@.len() implies #[trigger] a.langs@[i]@
            == b.langs@[i]@ by {
            assert(x[i] == a.langs@[i]@ && y[i] == b.langs@[i]@);
        }
    }
    if a.langs@.len() == b.langs@.len() && forall|i: int|
        0 <= i < a.langs@.len() ==> #[trigger] a.langs@[i]@ == b.langs@[i]@ {
        assert(x =~= y);
    }
}

/// The defaults are English and German, and a limit of zero counts as one.
pub proof fn law_defaults(n: int)
    ensures
        default_lang_texts().len() == 2,
        default_lang_texts()[0] == "en"@,
        default_lang_texts()[1] == "de"@,
        at_least_one(0) == 1,
        n > 0 ==> at_least_one(n) == n,
{
}

} // verus!

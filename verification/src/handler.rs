//! Handling one message from its arrival to its end.
//!
//! The handler holds the order of the steps. It asks for one outside action at
//! a time, is given what came of it, and decides on the next one.
use vstd::prelude::*;

use crate::batch::{
    batch_outcome, batch_view, law_lines_follow_the_targets, result_target, result_view,
    BatchFailureView, TargetResult, TranslatedLine, TranslatedLineView, TranslationBatchFailure,
};
use crate::commands::{action_for, decide_command, named_user, ActionView, CommandAction};
use crate::config::{
    at_least_one, copy_strings, effective_translation_config, overridden, room_override,
    same_settings, EffectiveTranslationConfig, RoomTranslations, TranslationConfig,
    TranslationRetryPolicy,
};
use crate::db::{
    looked_up, lookup_view, one_row_each, recorded, row_at, Lookup, RowView,
    TRANSLATIONS_MAX_AGE_SECS, TRANSLATIONS_ROW_CAP,
};
use crate::error::TranslationErrorView;
use crate::ids::{is_listed, parsed_user_id};
use crate::interval::Interval;
use crate::message::{ContentView, MessageContent, MessageEvent, MessageEventView, RelationView};
use crate::outcome::{stored, DbEventOutcome, EventOutcomeView};
use crate::pipeline::{
    arrival_of, class_of, classify_edit, classify_message, content_for, edit_class,
    law_sent_translation_is_found, mapping_for, message_subject, named_translation, on_detected,
    on_sent, on_translated, route_message, skip_if_translated, Arrival, ArrivalView, Class,
    Classified, Detected, EditEvent, EditView, Job, JobView, Mapping, MappingView, Translated,
    Translation, TranslationView,
};
use crate::record::{
    skip_noted, skip_outcome, suppressed_outcome, suppression_noted, translated_outcome,
    translation_noted, SubjectView,
};
use crate::retry::{
    law_job_ends_with_its_target, InputView, TargetJob, TargetJobView, TranslationInput,
    TranslationRetry,
};
use crate::skip::SkipReason;
use crate::stats::{opt_row, Stats, StatsView};
use crate::targets::{targets_for, DetectResult};
use crate::text::{opt_text, texts};

verus! {

// ── Settings ────────────────────────────────────────────────────────────────
/// What the handling of messages is configured by.
#[verifier::reject_recursive_types(C)]
pub struct Settings<C> {
    pub translation: TranslationConfig<C>,
    pub room_translations: RoomTranslations<C>,
    pub admin_users: Vec<String>,
}

impl<C> Settings<C> {
    /// The settings that apply in a room.
    pub open spec fn in_room(self, room_id: Seq<char>) -> EffectiveTranslationConfig<C> {
        overridden(self.translation, room_override(self.room_translations@, room_id))
    }
}

impl<C: Copy> Settings<C> {
    /// The settings that apply in a room.
    pub fn translation_for_room(&self, room_id: &str) -> (r: EffectiveTranslationConfig<C>)
        ensures
            same_settings(r, self.in_room(room_id@)),
    {
        effective_translation_config(&self.translation, &self.room_translations, room_id)
    }

    /// How translations are retried.
    pub fn retry_policy(&self) -> (r: TranslationRetryPolicy)
        ensures
            r.wf(),
            r.request_timeout.nanos == at_least_one(self.translation.request_timeout_secs as int)
                * 1_000_000_000,
            r.max_attempts == at_least_one(self.translation.max_attempts as int),
            r.initial_backoff.nanos == self.translation.retry_initial_backoff_ms * 1_000_000,
            r.overall_timeout.nanos == at_least_one(self.translation.overall_timeout_secs as int)
                * 1_000_000_000,
    {
        TranslationRetryPolicy::from_config(&self.translation)
    }
}

// ── States and actions ──────────────────────────────────────────────────────
/// What a message that is being handled waits for.
pub enum State {
    /// Whether it was translated already.
    Lookup(MessageEvent),
    /// Being marked as pending.
    Mark(MessageEvent),
    /// The bot's translation of the message that it edits.
    EditLookup(EditEvent),
    /// The language of its text.
    Detection(Job),
    /// The translations of its text.
    Batch(Translation),
    /// The sending of its translation.
    Sending(Translation),
    /// Nothing more.
    Done,
}

pub enum StateView {
    Lookup(MessageEventView),
    Mark(MessageEventView),
    EditLookup(EditView),
    Detection(JobView),
    Batch(TranslationView),
    Sending(TranslationView),
    Done,
}

impl View for State {
    type V = StateView;

    open spec fn view(&self) -> StateView {
        match self {
            State::Lookup(event) => StateView::Lookup(event@),
            State::Mark(event) => StateView::Mark(event@),
            State::EditLookup(edit) => StateView::EditLookup(edit@),
            State::Detection(job) => StateView::Detection(job@),
            State::Batch(t) => StateView::Batch(t@),
            State::Sending(t) => StateView::Sending(t@),
            State::Done => StateView::Done,
        }
    }
}

/// What is to be done next.
pub enum Action {
    /// Look up the translation of an event.
    Lookup { event_id: String },
    /// Look it up, waiting where that translation is being made.
    LookupAwaitingPending { event_id: String },
    /// Mark the translation of an event as running, until it is handled.
    MarkPending { event_id: String },
    /// Detect the language of a text.
    Detect { text: String },
    /// Translate a text into all targets.
    Translate {
        input: TranslationInput,
        source: String,
        targets: Vec<String>,
        context: &'static str,
    },
    /// Send a message.
    Send(MessageContent),
    /// Record that an event was translated.
    Remember(Mapping),
    /// Carry out a command.
    Command(CommandAction),
    /// Nothing more.
    Finish,
}

pub enum NextAction {
    Lookup { event_id: Seq<char> },
    LookupAwaitingPending { event_id: Seq<char> },
    MarkPending { event_id: Seq<char> },
    Detect { text: Seq<char> },
    Translate {
        input: InputView,
        source: Seq<char>,
        targets: Seq<Seq<char>>,
        context: Seq<char>,
    },
    Send(ContentView),
    Remember(MappingView),
    Command(ActionView),
    Finish,
}

impl View for Action {
    type V = NextAction;

    open spec fn view(&self) -> NextAction {
        match self {
            Action::Lookup { event_id } => NextAction::Lookup { event_id: event_id@ },
            Action::LookupAwaitingPending { event_id } => NextAction::LookupAwaitingPending {
                event_id: event_id@,
            },
            Action::MarkPending { event_id } => NextAction::MarkPending { event_id: event_id@ },
            Action::Detect { text } => NextAction::Detect { text: text@ },
            Action::Translate { input, source, targets, context } => NextAction::Translate {
                input: input@,
                source: source@,
                targets: texts(targets@),
                context: context@,
            },
            Action::Send(content) => NextAction::Send(content@),
            Action::Remember(mapping) => NextAction::Remember(
                MappingView {
                    original_event_id: mapping.original_event_id@,
                    bot_event_id: mapping.bot_event_id@,
                    room_id: mapping.room_id@,
                },
            ),
            Action::Command(command) => NextAction::Command(command@),
            Action::Finish => NextAction::Finish,
        }
    }
}

/// What came of an action.
pub enum Reply<C> {
    /// Of a lookup.
    Found(Lookup),
    /// Of marking.
    Marked,
    /// Of a detection.
    Detected(Option<DetectResult<C>>),
    /// Of a batch.
    Translated(Result<Vec<TranslatedLine>, TranslationBatchFailure>),
    /// Of sending: the event it was sent as, and how long the handling took.
    Sent { event_id: Option<String>, duration: Interval },
}

pub enum ReplyView {
    Found(Result<Option<Seq<char>>, Seq<char>>),
    Marked,
    /// The language, and whether the detection is too uncertain.
    Detected { lang: Option<Seq<char>>, below: bool },
    Translated(Result<Seq<TranslatedLineView>, BatchFailureView>),
    Sent { event_id: Option<Seq<char>>, duration: Interval },
}

/// Whether `view` is what `reply` says, with `min_confidence` as the threshold.
pub open spec fn says<C: PartialOrd>(reply: Reply<C>, view: ReplyView, min_confidence: C) -> bool {
    match reply {
        Reply::Found(lookup) => view == ReplyView::Found(lookup_view(lookup)),
        Reply::Marked => view == ReplyView::Marked,
        Reply::Detected(None) => view == (ReplyView::Detected { lang: None, below: false }),
        Reply::Detected(Some(d)) => view matches ReplyView::Detected { lang, below } && lang
            == Some(d.language@) && call_ensures(C::lt, (&d.confidence, &min_confidence), below),
        Reply::Translated(batch) => view == ReplyView::Translated(batch_view(batch)),
        Reply::Sent { event_id, duration } => view == (ReplyView::Sent {
            event_id: opt_text(event_id),
            duration,
        }),
    }
}

/// Whether `reply` answers what `state` waits for.
pub open spec fn answers<C>(state: State, reply: Reply<C>) -> bool {
    match state {
        State::Lookup(_) => reply is Found,
        State::Mark(_) => reply is Marked,
        State::EditLookup(_) => reply is Found,
        State::Detection(_) => reply is Detected,
        State::Batch(_) => reply is Translated,
        State::Sending(_) => reply is Sent,
        State::Done => false,
    }
}

/// A decision: what is waited for, what is to be done, and the row for the
/// durable history where the fate of the message was noted.
pub struct Step {
    pub state: State,
    pub action: Action,
    pub row: Option<DbEventOutcome>,
}

/// What a decision comes to.
pub struct Next {
    pub state: StateView,
    pub action: NextAction,
    /// What is noted about the message.
    pub outcome: Option<EventOutcomeView>,
    pub stats: StatsView,
}

pub open spec fn opt_stored(outcome: Option<EventOutcomeView>) -> Option<
    crate::outcome::DbEventOutcomeView,
> {
    match outcome {
        Some(o) => Some(stored(o)),
        None => None,
    }
}

/// Whether `step` and the statistics `stats` are what `next` says.
pub open spec fn realizes(step: Step, stats: StatsView, next: Next) -> bool {
    &&& step.state@ == next.state
    &&& step.action@ == next.action
    &&& opt_row(step.row) == opt_stored(next.outcome)
    &&& stats == next.stats
}

// ── The steps ───────────────────────────────────────────────────────────────
/// The first step with a message.
pub open spec fn first(event: MessageEventView) -> (StateView, NextAction) {
    match arrival_of(event) {
        ArrivalView::Edit(edit) => (
            StateView::EditLookup(edit),
            NextAction::LookupAwaitingPending { event_id: edit.original_event_id },
        ),
        ArrivalView::Message(message) => (
            StateView::Lookup(message),
            NextAction::Lookup { event_id: message.event_id },
        ),
    }
}

/// The end of a message about which `outcome` is noted.
pub open spec fn ended(
    action: NextAction,
    outcome: Option<EventOutcomeView>,
    stats: StatsView,
) -> Next {
    Next { state: StateView::Done, action, outcome, stats }
}

/// The end of a message that is skipped.
pub open spec fn skipped(
    subject: SubjectView,
    reason: SkipReason,
    stats: StatsView,
    at: Option<u64>,
) -> Next {
    ended(
        NextAction::Finish,
        Some(skip_outcome(subject, reason, at)),
        skip_noted(stats, subject, reason, at),
    )
}

/// What follows once it is known what a message asks for.
pub open spec fn after_class(
    class: Class,
    is_admin: bool,
    stats: StatsView,
    at: Option<u64>,
) -> Next {
    match class {
        Class::Skip { subject, reason } => skipped(subject, reason, stats, at),
        Class::Command(command) => ended(
            NextAction::Command(
                action_for(command, is_admin, parsed_user_id(named_user(command)) is Some),
            ),
            None,
            stats,
        ),
        Class::Translate(job) => Next {
            state: StateView::Detection(job),
            action: NextAction::Detect { text: job.input.plain_part() },
            outcome: None,
            stats,
        },
    }
}

/// What follows once the targets of a text are known.
pub open spec fn after_targets<C>(
    job: JobView,
    source: Seq<char>,
    targets: Result<Seq<Seq<char>>, SkipReason>,
    room: EffectiveTranslationConfig<C>,
    stats: StatsView,
    at: Option<u64>,
) -> Next {
    match targets {
        Err(reason) => skipped(job.subject, reason, stats, at),
        Ok(langs) => Next {
            state: StateView::Batch(
                TranslationView {
                    job,
                    source,
                    targets: langs,
                    reply_to_original: room.reply_to_original,
                    thread_replies: room.thread_replies,
                    silent_messages: room.silent_messages,
                },
            ),
            action: NextAction::Translate {
                input: job.input,
                source,
                targets: langs,
                context: job.context,
            },
            outcome: None,
            stats,
        },
    }
}

/// What follows in `state` upon `reply`.
pub open spec fn next<C>(
    state: StateView,
    reply: ReplyView,
    settings: Settings<C>,
    stats: StatsView,
    at: Option<u64>,
) -> Next {
    let max_input_chars = settings.translation.max_input_chars;
    match (state, reply) {
        (StateView::Lookup(event), ReplyView::Found(lookup)) => match lookup {
            Ok(Some(_)) => skipped(
                message_subject(event, event.msgtype.name(), "n/a"@),
                SkipReason::AlreadyTranslated,
                stats,
                at,
            ),
            _ => Next {
                state: StateView::Mark(event),
                action: NextAction::MarkPending { event_id: event.event_id },
                outcome: None,
                stats,
            },
        },
        (StateView::Mark(event), ReplyView::Marked) => after_class(
            class_of(event, max_input_chars),
            texts(settings.admin_users@).contains(event.sender),
            stats,
            at,
        ),
        (StateView::EditLookup(edit), ReplyView::Found(lookup)) => match lookup {
            Err(_) => ended(NextAction::Finish, None, stats),
            Ok(found) => after_class(
                edit_class(edit, named_translation(found), max_input_chars),
                false,
                stats,
                at,
            ),
        },
        (StateView::Detection(job), ReplyView::Detected { lang, below }) => {
            let room = settings.in_room(job.subject.room_id);
            match lang {
                None => skipped(job.subject, SkipReason::LangDetectFailed, stats, at),
                Some(source) => after_targets(
                    job,
                    source,
                    targets_for(below, source, texts(room.langs@)),
                    room,
                    stats,
                    at,
                ),
            }
        },
        (StateView::Batch(t), ReplyView::Translated(batch)) => match batch {
            Ok(lines) => Next {
                state: StateView::Sending(t),
                action: NextAction::Send(content_for(t, lines)),
                outcome: None,
                stats,
            },
            Err(failure) => ended(
                NextAction::Finish,
                Some(
                    suppressed_outcome(
                        failure,
                        t.job.subject.room_id,
                        t.job.subject.event_id,
                        at,
                    ),
                ),
                suppression_noted(
                    stats,
                    failure,
                    t.job.subject.room_id,
                    t.job.subject.event_id,
                    at,
                ),
            ),
        },
        (StateView::Sending(t), ReplyView::Sent { event_id, duration }) => ended(
            match mapping_for(t, event_id) {
                Some(mapping) => NextAction::Remember(mapping),
                None => NextAction::Finish,
            },
            Some(
                translated_outcome(
                    t.job.subject,
                    t.source,
                    t.targets,
                    event_id is Some,
                    duration,
                    at,
                ),
            ),
            translation_noted(
                stats,
                t.job.subject,
                t.source,
                t.targets,
                event_id is Some,
                duration,
                at,
            ),
        ),
        _ => ended(NextAction::Finish, None, stats),
    }
}

/// Begins to handle a message.
pub fn handle_message_core(event: MessageEvent) -> (r: (State, Action))
    ensures
        (r.0@, r.1@) == first(event@),
{
    match route_message(event) {
        Arrival::Edit(edit) => {
            let event_id = edit.original_event_id.clone();
            (State::EditLookup(edit), Action::LookupAwaitingPending { event_id })
        },
        Arrival::Message(message) => {
            let event_id = message.event_id.clone();
            (State::Lookup(message), Action::Lookup { event_id })
        },
    }
}

fn go_on(classified: Classified, is_admin: bool) -> (r: Step)
    ensures
        classified matches Classified::Skipped(row) ==> {
            &&& r.state@ == StateView::Done
            &&& r.action@ == NextAction::Finish
            &&& r.row matches Some(x) && x@ == row@
        },
        classified matches Classified::Command(command) ==> {
            &&& r.state@ == StateView::Done
            &&& r.action@ == NextAction::Command(
                action_for(command@, is_admin, parsed_user_id(named_user(command@)) is Some),
            )
            &&& r.row is None
        },
        classified matches Classified::Detect(job) ==> {
            &&& r.state@ == StateView::Detection(job@)
            &&& r.action@ == (NextAction::Detect { text: job@.input.plain_part() })
            &&& r.row is None
        },
{
    match classified {
        Classified::Skipped(row) => Step {
            state: State::Done,
            action: Action::Finish,
            row: Some(row),
        },
        Classified::Command(command) => Step {
            state: State::Done,
            action: Action::Command(decide_command(command, is_admin)),
            row: None,
        },
        Classified::Detect(job) => {
            let text: String = job.text().to_owned();
            Step { state: State::Detection(job), action: Action::Detect { text }, row: None }
        },
    }
}

/// Goes on with a message: decides, upon what came of the last action, what is
/// done next, and notes the fate of the message once it is decided.
pub fn advance<C: Copy + PartialOrd>(
    state: State,
    reply: Reply<C>,
    settings: &Settings<C>,
    stats: &mut Stats,
    at: Option<u64>,
) -> (r: Step)
    requires
        answers(state, reply),
        old(stats)@.wf(),
    ensures
        final(stats)@.wf(),
        exists|view: ReplyView|
            {
                &&& #[trigger] says(reply, view, min_confidence_for(state@, *settings))
                &&& realizes(r, final(stats)@, next(state@, view, *settings, old(stats)@, at))
            },
{
    let ghost threshold = min_confidence_for(state@, *settings);
    let max_input_chars: usize = settings.translation.max_input_chars;
    match (state, reply) {
        (State::Lookup(event), Reply::Found(lookup)) => {
            assert(says(
                Reply::<C>::Found(lookup),
                ReplyView::Found(lookup_view(lookup)),
                threshold,
            ));
            match skip_if_translated(&event, &lookup, stats, at) {
                Some(row) => Step { state: State::Done, action: Action::Finish, row: Some(row) },
                None => {
                    let event_id = event.event_id.clone();
                    Step {
                        state: State::Mark(event),
                        action: Action::MarkPending { event_id },
                        row: None,
                    }
                },
            }
        },
        (State::Mark(event), Reply::Marked) => {
            assert(says(Reply::<C>::Marked, ReplyView::Marked, threshold));
            let is_admin: bool = is_listed(&settings.admin_users, event.sender.as_str());
            let classified = classify_message(&event, max_input_chars, stats, at);
            go_on(classified, is_admin)
        },
        (State::EditLookup(edit), Reply::Found(lookup)) => {
            assert(says(
                Reply::<C>::Found(lookup),
                ReplyView::Found(lookup_view(lookup)),
                threshold,
            ));
            match classify_edit(&edit, &lookup, max_input_chars, stats, at) {
                None => Step { state: State::Done, action: Action::Finish, row: None },
                Some(classified) => go_on(classified, false),
            }
        },
        (State::Detection(job), Reply::Detected(detected)) => {
            let room = settings.translation_for_room(job.subject.room_id.as_str());
            let ghost before = detected;
            let decided = on_detected(job, detected, &room, stats, at);
            proof {
                match before {
                    None => {
                        assert(says(
                            Reply::<C>::Detected(None),
                            ReplyView::Detected { lang: None, below: false },
                            threshold,
                        ));
                    },
                    Some(d) => {
                        let below = choose|below: bool|
                            {
                                let targets = targets_for(
                                    below,
                                    d.language@,
                                    texts(room.langs@),
                                );
                                &&& #[trigger] call_ensures(
                                    C::lt,
                                    (&d.confidence, &room.min_confidence),
                                    below,
                                )
                                &&& crate::pipeline::follows_targets(
                                    decided,
                                    job@,
                                    d.language@,
                                    targets,
                                    room,
                                    at,
                                )
                                &&& stats@ == crate::pipeline::targets_noted(
                                    old(stats)@,
                                    job@,
                                    targets,
                                    at,
                                )
                            };
                        assert(says(
                            Reply::<C>::Detected(Some(d)),
                            ReplyView::Detected { lang: Some(d.language@), below },
                            threshold,
                        ));
                    },
                }
            }
            match decided {
                Detected::Skipped(row) => Step {
                    state: State::Done,
                    action: Action::Finish,
                    row: Some(row),
                },
                Detected::Translate(t) => {
                    let action = Action::Translate {
                        input: t.job.input.copy(),
                        source: t.source.clone(),
                        targets: copy_strings(&t.targets),
                        context: t.job.context,
                    };
                    Step { state: State::Batch(t), action, row: None }
                },
            }
        },
        (State::Batch(t), Reply::Translated(batch)) => {
            assert(says(
                Reply::<C>::Translated(batch),
                ReplyView::Translated(batch_view(batch)),
                threshold,
            ));
            match on_translated(&t, &batch, stats, at) {
                Translated::Suppressed(row) => Step {
                    state: State::Done,
                    action: Action::Finish,
                    row: Some(row),
                },
                Translated::Send(content) => Step {
                    state: State::Sending(t),
                    action: Action::Send(content),
                    row: None,
                },
            }
        },
        (State::Sending(t), Reply::Sent { event_id, duration }) => {
            assert(says(
                Reply::<C>::Sent { event_id, duration },
                ReplyView::Sent { event_id: opt_text(event_id), duration },
                threshold,
            ));
            let (row, mapping) = on_sent(&t, event_id, duration, stats, at);
            let action = match mapping {
                Some(mapping) => Action::Remember(mapping),
                None => Action::Finish,
            };
            Step { state: State::Done, action, row: Some(row) }
        },
        _ => Step { state: State::Done, action: Action::Finish, row: None },
    }
}

/// The confidence threshold that applies in `state`.
pub open spec fn min_confidence_for<C>(state: StateView, settings: Settings<C>) -> C {
    match state {
        StateView::Detection(job) => settings.in_room(job.subject.room_id).min_confidence,
        _ => settings.translation.min_confidence,
    }
}

// ── Translating into all targets ────────────────────────────────────────────
/// The jobs of translating `input` into `targets`.
pub open spec fn jobs_for(
    input: InputView,
    targets: Seq<Seq<char>>,
    policy: TranslationRetryPolicy,
) -> Seq<TargetJobView> {
    Seq::new(
        targets.len(),
        |i: int|
            TargetJobView { target: targets[i], input, retry: TranslationRetry::fresh(policy) },
    )
}

pub open spec fn job_views(v: Seq<TargetJob>) -> Seq<TargetJobView> {
    Seq::new(v.len(), |i: int| v[i]@)
}

/// The jobs of translating `input` into all `targets`, one for each, in order.
pub fn translate_all_targets(
    input: &TranslationInput,
    targets: &Vec<String>,
    policy: &TranslationRetryPolicy,
) -> (r: Vec<TargetJob>)
    requires
        policy.wf(),
    ensures
        job_views(r@) == jobs_for(input@, texts(targets@), *policy),
        forall|i: int| 0 <= i < r@.len() ==> (#[trigger] r@[i]).retry.ready(*policy),
{
    let ghost all = jobs_for(input@, texts(targets@), *policy);
    let mut r: Vec<TargetJob> = Vec::new();
    let mut i: usize = 0;
    assert(job_views(r@) =~= all.take(0));
    while i < targets.len()
        invariant
            i <= targets@.len(),
            policy.wf(),
            all == jobs_for(input@, texts(targets@), *policy),
            job_views(r@) == all.take(i as int),
            forall|k: int| 0 <= k < r@.len() ==> (#[trigger] r@[k]).retry.ready(*policy),
        decreases targets@.len() - i,
    {
        let ghost before = job_views(r@);
        let job = TargetJob::new(targets[i].as_str(), input.copy(), policy);
        r.push(job);
        assert(job_views(r@) =~= before.push(all[i as int]));
        assert(all.take(i + 1) =~= all.take(i as int).push(all[i as int]));
        i = i + 1;
    }
    assert(all.take(i as int) =~= all);
    r
}

// ── Laws ────────────────────────────────────────────────────────────────────
/// The translations of an event are in the order of its targets: where the jobs
/// of all targets ended upon the backend's replies, the batch of their results
/// has one line for each target, in order, or names only targets of its own as
/// failed.
pub proof fn law_translations_follow_the_targets(
    input: InputView,
    targets: Seq<Seq<char>>,
    policy: TranslationRetryPolicy,
    replies: Seq<Seq<Result<Seq<char>, TranslationErrorView>>>,
    results: Seq<TargetResult>,
    source: Seq<char>,
    context: Seq<char>,
    attempts: Map<Seq<char>, usize>,
)
    requires
        policy.wf(),
        results.len() == targets.len(),
        replies.len() == targets.len(),
        forall|i: int|
            0 <= i < targets.len() ==> jobs_for(input, targets, policy)[i].result(
                policy,
                replies[i],
            ) == Some(result_view(#[trigger] results[i])),
    ensures
        match batch_outcome(
            source,
            targets,
            context,
            policy.overall_timeout,
            attempts,
            Some(results),
        ) {
            Ok(lines) => {
                &&& lines.len() == targets.len()
                &&& forall|i: int|
                    0 <= i < lines.len() ==> (#[trigger] lines[i]).target == targets[i]
            },
            Err(failure) => forall|i: int|
                0 <= i < failure.failed_targets.len() ==> targets.contains(
                    (#[trigger] failure.failed_targets[i]).target,
                ),
        },
{
    assert forall|i: int| 0 <= i < results.len() implies result_target(#[trigger] results[i])
        == targets[i] by {
        let job = jobs_for(input, targets, policy)[i];
        assert(job.retry.ready(policy));
        law_job_ends_with_its_target(job, policy, replies[i]);
    }
    law_lines_follow_the_targets(
        source,
        targets,
        context,
        policy.overall_timeout,
        attempts,
        results,
    );
}

/// How many steps lie at most before a message that is in `state`.
pub open spec fn steps_left(state: StateView) -> nat {
    match state {
        StateView::Lookup(_) => 5,
        StateView::Mark(_) => 4,
        StateView::EditLookup(_) => 4,
        StateView::Detection(_) => 3,
        StateView::Batch(_) => 2,
        StateView::Sending(_) => 1,
        StateView::Done => 0,
    }
}

/// How many messages the bot sends from `state` on, upon `replies`.
pub open spec fn messages_sent<C>(
    state: StateView,
    replies: Seq<ReplyView>,
    settings: Settings<C>,
    stats: StatsView,
    at: Option<u64>,
) -> nat
    decreases replies.len(),
{
    if replies.len() == 0 {
        0
    } else {
        let n = next(state, replies[0], settings, stats, at);
        let rest = messages_sent(n.state, replies.skip(1), settings, n.stats, at);
        if n.action is Send {
            rest + 1
        } else {
            rest
        }
    }
}

/// How many outcomes are noted from `state` on, upon `replies`.
pub open spec fn outcomes_noted<C>(
    state: StateView,
    replies: Seq<ReplyView>,
    settings: Settings<C>,
    stats: StatsView,
    at: Option<u64>,
) -> nat
    decreases replies.len(),
{
    if replies.len() == 0 {
        0
    } else {
        let n = next(state, replies[0], settings, stats, at);
        let rest = outcomes_noted(n.state, replies.skip(1), settings, n.stats, at);
        if n.outcome is Some {
            rest + 1
        } else {
            rest
        }
    }
}

/// The handling of a message ends: each step leaves fewer before it, and once
/// it is done nothing follows.
pub proof fn law_handling_ends<C>(
    state: StateView,
    reply: ReplyView,
    settings: Settings<C>,
    stats: StatsView,
    at: Option<u64>,
)
    ensures
        state !is Done ==> steps_left(next(state, reply, settings, stats, at).state) < steps_left(
            state,
        ),
        state is Done ==> next(state, reply, settings, stats, at) == ended(
            NextAction::Finish,
            None,
            stats,
        ),
{
}

/// Whatever the replies, the bot sends at most one message for a message, and
/// none once it has sent it.
pub proof fn law_at_most_one_message<C>(
    state: StateView,
    replies: Seq<ReplyView>,
    settings: Settings<C>,
    stats: StatsView,
    at: Option<u64>,
)
    ensures
        messages_sent(state, replies, settings, stats, at) <= 1,
        state is Sending || state is Done ==> messages_sent(state, replies, settings, stats, at)
            == 0,
    decreases replies.len(),
{
    if replies.len() > 0 {
        let n = next(state, replies[0], settings, stats, at);
        law_at_most_one_message(n.state, replies.skip(1), settings, n.stats, at);
    }
}

/// Whatever the replies, at most one outcome is noted about a message.
pub proof fn law_at_most_one_outcome<C>(
    state: StateView,
    replies: Seq<ReplyView>,
    settings: Settings<C>,
    stats: StatsView,
    at: Option<u64>,
)
    ensures
        outcomes_noted(state, replies, settings, stats, at) <= 1,
        state is Done ==> outcomes_noted(state, replies, settings, stats, at) == 0,
    decreases replies.len(),
{
    if replies.len() > 0 {
        let n = next(state, replies[0], settings, stats, at);
        law_at_most_one_outcome(n.state, replies.skip(1), settings, n.stats, at);
    }
}

/// A message that was translated already is not translated again: whatever
/// follows, nothing is sent, and the message is noted as skipped.
pub proof fn law_translated_message_is_not_translated_again<C>(
    event: MessageEventView,
    bot_event_id: Seq<char>,
    rest: Seq<ReplyView>,
    settings: Settings<C>,
    stats: StatsView,
    at: Option<u64>,
)
    requires
        !(event.relates_to matches Some(RelationView::Replacement { .. })),
    ensures
        ({
            let found = ReplyView::Found(Ok(Some(bot_event_id)));
            let (state, action) = first(event);
            let n = next(state, found, settings, stats, at);
            &&& action == (NextAction::Lookup { event_id: event.event_id })
            &&& messages_sent(state, seq![found] + rest, settings, stats, at) == 0
            &&& n.state is Done
            &&& n.outcome == Some(
                skip_outcome(
                    message_subject(event, event.msgtype.name(), "n/a"@),
                    SkipReason::AlreadyTranslated,
                    at,
                ),
            )
        }),
{
    let found = ReplyView::Found(Ok(Some(bot_event_id)));
    let (state, _) = first(event);
    let n = next(state, found, settings, stats, at);
    let replies = seq![found] + rest;
    assert(replies[0] == found);
    assert(replies.skip(1) =~= rest);
    law_at_most_one_message(n.state, rest, settings, n.stats, at);
}

/// Once the translation of a message was sent and recorded, a second delivery
/// of the message is skipped. The two cases in which the record leaves at once
/// are left out, as where it is made.
pub proof fn law_second_delivery_is_skipped<C>(
    rows: Seq<RowView>,
    t: TranslationView,
    bot_event_id: Seq<char>,
    now: i64,
    event: MessageEventView,
    settings: Settings<C>,
    stats: StatsView,
    at: Option<u64>,
)
    requires
        one_row_each(rows),
        rows.len() <= TRANSLATIONS_ROW_CAP,
        t.job.delivery is New,
        event.event_id == t.job.subject.event_id,
        row_at(rows, event.event_id) matches Some(i) ==> rows[i].created_at >= now
            - TRANSLATIONS_MAX_AGE_SECS,
        row_at(rows, event.event_id) is None ==> (rows.len() < TRANSLATIONS_ROW_CAP || exists|
            i: int,
        |
            0 <= i < rows.len() && (#[trigger] rows[i]).created_at <= now),
    ensures
        mapping_for(t, Some(bot_event_id)) matches Some(m) && ({
            let after = recorded(
                rows,
                RowView {
                    original_event_id: m.original_event_id,
                    bot_event_id: m.bot_event_id,
                    room_id: m.room_id,
                    created_at: now,
                },
            );
            next(
                StateView::Lookup(event),
                ReplyView::Found(Ok(looked_up(after, event.event_id))),
                settings,
                stats,
                at,
            ) == skipped(
                message_subject(event, event.msgtype.name(), "n/a"@),
                SkipReason::AlreadyTranslated,
                stats,
                at,
            )
        }),
{
    law_sent_translation_is_found(rows, t, bot_event_id, now);
}

/// A message is looked up and marked as pending before its text is detected,
/// translated or answered; an edit of an event without a translation sends
/// nothing; and the store is told of a translation only after it was sent.
pub proof fn law_order_of_steps<C>(
    state: StateView,
    reply: ReplyView,
    settings: Settings<C>,
    stats: StatsView,
    at: Option<u64>,
)
    ensures
        ({
            let n = next(state, reply, settings, stats, at);
            &&& n.action is MarkPending ==> state is Lookup
            &&& n.action is Command ==> state is Mark
            &&& n.action is Detect ==> state is Mark || state is EditLookup
            &&& n.action is Translate ==> state is Detection
            &&& n.action is Send ==> state is Batch && (reply matches ReplyView::Translated(Ok(_)))
            &&& n.action is Remember ==> state is Sending && (reply matches ReplyView::Sent {
                event_id: Some(_),
                ..
            })
            &&& state is EditLookup && reply == ReplyView::Found(Ok(None)) ==> n.state is Done
                && n.action is Finish
        }),
{
}

/// A message is looked up under its own ID, and an edit under the ID of the
/// event that it replaces, waiting for a translation that is running.
pub proof fn law_first_step(event: MessageEventView)
    ensures
        match event.relates_to {
            Some(RelationView::Replacement { event_id, new_content }) => first(event) == (
                StateView::EditLookup(
                    EditView { original_event_id: event_id, room_id: event.room_id, new_content },
                ),
                NextAction::LookupAwaitingPending { event_id },
            ),
            _ => first(event) == (
                StateView::Lookup(event),
                NextAction::Lookup { event_id: event.event_id },
            ),
        },
{
}

/// A message goes on to be marked as pending unless the store names a
/// translation of it; where the store cannot be asked it goes on too.
pub proof fn law_lookup_step<C>(
    event: MessageEventView,
    found: Seq<char>,
    problem: Seq<char>,
    settings: Settings<C>,
    stats: StatsView,
    at: Option<u64>,
)
    ensures
        ({
            let state = StateView::Lookup(event);
            let marking = Next {
                state: StateView::Mark(event),
                action: NextAction::MarkPending { event_id: event.event_id },
                outcome: None,
                stats,
            };
            let subject = SubjectView {
                event_id: event.event_id,
                room_id: event.room_id,
                sender: Some(event.sender),
                msgtype: event.msgtype.name(),
                text_source: "n/a"@,
            };
            &&& next(state, ReplyView::Found(Ok(None)), settings, stats, at) == marking
            &&& next(state, ReplyView::Found(Err(problem)), settings, stats, at) == marking
            &&& next(state, ReplyView::Found(Ok(Some(found))), settings, stats, at) == (Next {
                state: StateView::Done,
                action: NextAction::Finish,
                outcome: Some(skip_outcome(subject, SkipReason::AlreadyTranslated, at)),
                stats: skip_noted(stats, subject, SkipReason::AlreadyTranslated, at),
            })
        }),
{
}

/// Once a message is marked, what it asks for is done: it is skipped with a
/// note, its command is carried out, with the rights of an administrator exactly
/// where its sender is listed as one, or the language of its plain text is
/// detected.
pub proof fn law_marked_step<C>(
    event: MessageEventView,
    settings: Settings<C>,
    stats: StatsView,
    at: Option<u64>,
)
    ensures
        ({
            let n = next(StateView::Mark(event), ReplyView::Marked, settings, stats, at);
            let admins = settings.admin_users@;
            let listed = exists|i: int| 0 <= i < admins.len() && #[trigger] admins[i]@ == event.sender;
            match class_of(event, settings.translation.max_input_chars) {
                Class::Skip { subject, reason } => n == (Next {
                    state: StateView::Done,
                    action: NextAction::Finish,
                    outcome: Some(skip_outcome(subject, reason, at)),
                    stats: skip_noted(stats, subject, reason, at),
                }),
                Class::Command(command) => n == (Next {
                    state: StateView::Done,
                    action: NextAction::Command(
                        action_for(command, listed, parsed_user_id(named_user(command)) is Some),
                    ),
                    outcome: None,
                    stats,
                }),
                Class::Translate(job) => n == (Next {
                    state: StateView::Detection(job),
                    action: NextAction::Detect {
                        text: match job.input {
                            InputView::Text { plain } => plain,
                            InputView::Html { plain, .. } => plain,
                        },
                    },
                    outcome: None,
                    stats,
                }),
            }
        }),
{
    let admins = settings.admin_users@;
    let listed = exists|i: int| 0 <= i < admins.len() && #[trigger] admins[i]@ == event.sender;
    let t = texts(admins);
    if listed {
        let i = choose|i: int| 0 <= i < admins.len() && #[trigger] admins[i]@ == event.sender;
        assert(t[i] == event.sender);
    }
    if t.contains(event.sender) {
        let i = choose|i: int| 0 <= i < t.len() && t[i] == event.sender;
        assert(admins[i]@ == event.sender);
    }
}

/// An edit goes on with what its new content asks for, against the translation
/// that the store names; where the store cannot be asked, nothing more happens.
pub proof fn law_edit_step<C>(
    edit: EditView,
    found: Option<Seq<char>>,
    problem: Seq<char>,
    settings: Settings<C>,
    stats: StatsView,
    at: Option<u64>,
)
    ensures
        ({
            let state = StateView::EditLookup(edit);
            let n = next(state, ReplyView::Found(Ok(found)), settings, stats, at);
            &&& next(state, ReplyView::Found(Err(problem)), settings, stats, at) == (Next {
                state: StateView::Done,
                action: NextAction::Finish,
                outcome: None,
                stats,
            })
            &&& match edit_class(
                edit,
                named_translation(found),
                settings.translation.max_input_chars,
            ) {
                Class::Skip { subject, reason } => n == (Next {
                    state: StateView::Done,
                    action: NextAction::Finish,
                    outcome: Some(skip_outcome(subject, reason, at)),
                    stats: skip_noted(stats, subject, reason, at),
                }),
                Class::Translate(job) => n == (Next {
                    state: StateView::Detection(job),
                    action: NextAction::Detect { text: job.input.plain_part() },
                    outcome: None,
                    stats,
                }),
                Class::Command(_) => false,
            }
        }),
{
}

/// A text whose language was detected is translated into the other languages of
/// its room, in the way of the room; where there is no language, or nothing to
/// translate into, it is skipped with a note.
pub proof fn law_detection_step<C>(
    job: JobView,
    source: Seq<char>,
    below: bool,
    settings: Settings<C>,
    stats: StatsView,
    at: Option<u64>,
)
    ensures
        ({
            let state = StateView::Detection(job);
            let room = overridden(
                settings.translation,
                room_override(settings.room_translations@, job.subject.room_id),
            );
            let end = |reason: SkipReason|
                Next {
                    state: StateView::Done,
                    action: NextAction::Finish,
                    outcome: Some(skip_outcome(job.subject, reason, at)),
                    stats: skip_noted(stats, job.subject, reason, at),
                };
            let n = next(
                state,
                ReplyView::Detected { lang: Some(source), below },
                settings,
                stats,
                at,
            );
            &&& next(state, ReplyView::Detected { lang: None, below }, settings, stats, at) == end(
                SkipReason::LangDetectFailed,
            )
            &&& match targets_for(below, source, texts(room.langs@)) {
                Err(reason) => n == end(reason),
                Ok(targets) => {
                    &&& n.action == (NextAction::Translate {
                        input: job.input,
                        source,
                        targets,
                        context: job.context,
                    })
                    &&& n.state matches StateView::Batch(t) && t.job == job && t.source == source
                        && t.targets == targets && t.reply_to_original == room.reply_to_original
                        && t.thread_replies == room.thread_replies && t.silent_messages
                        == room.silent_messages
                    &&& n.outcome is None
                    &&& n.stats == stats
                },
            }
            &&& min_confidence_for(state, settings) == room.min_confidence
        }),
{
}

/// Lines that all came are sent, and a batch that failed ends the message with a
/// note. What was sent is remembered where it is new, and its fate is noted.
pub proof fn law_last_steps<C>(
    t: TranslationView,
    lines: Seq<TranslatedLineView>,
    failure: BatchFailureView,
    sent: Option<Seq<char>>,
    duration: Interval,
    settings: Settings<C>,
    stats: StatsView,
    at: Option<u64>,
)
    ensures
        ({
            let (room_id, event_id) = (t.job.subject.room_id, t.job.subject.event_id);
            let batch = StateView::Batch(t);
            let sending = StateView::Sending(t);
            let n = next(
                sending,
                ReplyView::Sent { event_id: sent, duration },
                settings,
                stats,
                at,
            );
            &&& next(batch, ReplyView::Translated(Ok(lines)), settings, stats, at) == (Next {
                state: sending,
                action: NextAction::Send(content_for(t, lines)),
                outcome: None,
                stats,
            })
            &&& next(batch, ReplyView::Translated(Err(failure)), settings, stats, at) == (Next {
                state: StateView::Done,
                action: NextAction::Finish,
                outcome: Some(suppressed_outcome(failure, room_id, event_id, at)),
                stats: suppression_noted(stats, failure, room_id, event_id, at),
            })
            &&& n.state == StateView::Done
            &&& mapping_for(t, sent) matches Some(m) ==> n.action == NextAction::Remember(m)
            &&& mapping_for(t, sent) is None ==> n.action == NextAction::Finish
            &&& n.outcome == Some(
                translated_outcome(t.job.subject, t.source, t.targets, sent is Some, duration, at),
            )
            &&& n.stats == translation_noted(
                stats,
                t.job.subject,
                t.source,
                t.targets,
                sent is Some,
                duration,
                at,
            )
        }),
{
}

/// A step says its state, its action and its row, and the statistics are those
/// of the decision.
pub proof fn law_steps_realize_decisions(step: Step, stats: StatsView, decision: Next)
    ensures
        realizes(step, stats, decision) <==> {
            &&& step.state@ == decision.state
            &&& step.action@ == decision.action
            &&& step.row is Some <==> decision.outcome is Some
            &&& step.row matches Some(row) ==> row@ == stored(decision.outcome->0)
            &&& stats == decision.stats
        },
{
}

/// What a reply says is what it holds; of a detection, its language and whether
/// its confidence is below the threshold.
pub proof fn law_what_replies_say<C: PartialOrd>(
    view: ReplyView,
    lookup: Lookup,
    detected: DetectResult<C>,
    batch: Result<Vec<TranslatedLine>, TranslationBatchFailure>,
    event_id: Option<String>,
    duration: Interval,
    threshold: C,
)
    ensures
        says(Reply::<C>::Found(lookup), view, threshold) <==> view == ReplyView::Found(
            lookup_view(lookup),
        ),
        says(Reply::<C>::Marked, view, threshold) <==> view == ReplyView::Marked,
        says(Reply::<C>::Detected(None), view, threshold) ==> (
        view matches ReplyView::Detected { lang, .. } && lang is None),
        says(Reply::Detected(Some(detected)), view, threshold) <==> (
        view matches ReplyView::Detected { lang, below } && lang == Some(detected.language@)
            && call_ensures(C::lt, (&detected.confidence, &threshold), below)),
        says(Reply::<C>::Translated(batch), view, threshold) <==> view == ReplyView::Translated(
            batch_view(batch),
        ),
        says(Reply::<C>::Sent { event_id, duration }, view, threshold) <==> (
        view matches ReplyView::Sent { event_id: e, duration: d } && e == opt_text(event_id) && d
            == duration),
{
}

/// What a step waits for and asks for is what it holds.
pub proof fn law_step_views(
    event: MessageEvent,
    edit: EditEvent,
    job: Job,
    t: Translation,
    id: String,
    content: MessageContent,
    mapping: Mapping,
    command: CommandAction,
    input: TranslationInput,
    targets: Vec<String>,
    context: &'static str,
)
    ensures
        State::Lookup(event)@ == StateView::Lookup(event@),
        State::Mark(event)@ == StateView::Mark(event@),
        State::EditLookup(edit)@ == StateView::EditLookup(edit@),
        State::Detection(job)@ == StateView::Detection(job@),
        State::Batch(t)@ == StateView::Batch(t@),
        State::Sending(t)@ == StateView::Sending(t@),
        State::Done@ == StateView::Done,
        (Action::Lookup { event_id: id })@ == (NextAction::Lookup { event_id: id@ }),
        (Action::LookupAwaitingPending { event_id: id })@ == (NextAction::LookupAwaitingPending {
            event_id: id@,
        }),
        (Action::MarkPending { event_id: id })@ == (NextAction::MarkPending { event_id: id@ }),
        (Action::Detect { text: id })@ == (NextAction::Detect { text: id@ }),
        Action::Send(content)@ == NextAction::Send(content@),
        (Action::Translate { input, source: id, targets, context })@ == (NextAction::Translate {
            input: input@,
            source: id@,
            targets: texts(targets@),
            context: context@,
        }),
        Action::Remember(mapping)@ matches NextAction::Remember(m) && m.original_event_id
            == mapping.original_event_id@ && m.bot_event_id == mapping.bot_event_id@ && m.room_id
            == mapping.room_id@,
        Action::Command(command)@ == NextAction::Command(command@),
        Action::Finish@ == NextAction::Finish,
{
}

/// There is one job for each target, in their order, each with the input and
/// with no attempt begun.
pub proof fn law_jobs(
    input: InputView,
    targets: Seq<Seq<char>>,
    policy: TranslationRetryPolicy,
    jobs: Seq<TargetJob>,
    i: int,
)
    requires
        job_views(jobs) == jobs_for(input, targets, policy),
    ensures
        jobs.len() == targets.len(),
        0 <= i < jobs.len() ==> jobs[i]@.target == targets[i] && jobs[i]@.input == input
            && jobs[i]@.retry.attempts == 0,
{
    assert(job_views(jobs).len() == jobs.len());
    if 0 <= i < jobs.len() {
        assert(job_views(jobs)[i] == jobs[i]@);
    }
}

} // verus!

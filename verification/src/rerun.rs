//! `!translate retry`: handling one event anew, on demand.
use vstd::prelude::*;

use crate::db::{lookup_view, Lookup};
use crate::ids::{parse_event_id, parsed_event_id, text_result};
use crate::outcome::{stored, DbEventOutcome};
use crate::record::{record_skip, skip_noted, skip_outcome, Subject, SubjectView};
use crate::skip::SkipReason;
use crate::stats::{opt_row, Stats};
use crate::text::opt_text;

verus! {

// ── Answers ───────────────────────────────────────────────────────────────────
/// Where `!translate retry` goes on: with an event, or straight with an answer.
pub open spec fn retry_start(arg: Seq<char>, parsed: Result<Seq<char>, Seq<char>>) -> Result<
    Seq<char>,
    Seq<char>,
> {
    if arg.len() == 0 {
        Err("Usage: !translate retry <event-id>"@)
    } else {
        match parsed {
            Ok(event_id) => Ok(event_id),
            Err(problem) => Err("'"@ + arg + "' is not a valid event ID: "@ + problem),
        }
    }
}

/// Where `!translate retry` goes on, given what the argument is as an event ID.
pub fn start_retry_given(arg: &str, parsed: Result<String, String>) -> (r: Result<String, String>)
    ensures
        text_result(r) == retry_start(arg@, text_result(parsed)),
{
    if arg.is_empty() {
        return Err("Usage: !translate retry <event-id>".to_owned());
    }
    match parsed {
        Ok(event_id) => Ok(event_id),
        Err(problem) => {
            let mut s: String = "'".to_owned();
            s.append(arg);
            s.append("' is not a valid event ID: ");
            s.append(problem.as_str());
            Err(s)
        },
    }
}

/// Where `!translate retry` goes on: with the event of the argument (`Ok`), or
/// straight with an answer (`Err`).
pub fn start_retry(arg: &str) -> (r: Result<String, String>)
    ensures
        text_result(r) == retry_start(arg@, parsed_event_id(arg@)),
{
    start_retry_given(arg, parse_event_id(arg))
}

/// The answer where an event is not tried again because of what the store says.
pub open spec fn retry_refusal(
    event_id: Seq<char>,
    lookup: Result<Option<Seq<char>>, Seq<char>>,
) -> Option<Seq<char>> {
    match lookup {
        Err(problem) => Some(
            "Could not check existing translations for "@ + event_id + ": "@ + problem,
        ),
        Ok(Some(bot_event_id)) => Some(
            event_id + " was already translated as "@ + bot_event_id
                + " — edit the original message if you want to force a re-translation."@,
        ),
        Ok(None) => None,
    }
}

/// The event of a retry, as the diagnostics describe it.
pub open spec fn retry_subject(event_id: Seq<char>, room_id: Seq<char>) -> SubjectView {
    SubjectView {
        event_id,
        room_id,
        sender: None,
        msgtype: "n/a"@,
        text_source: "n/a"@,
    }
}

/// Whether an event that is to be tried again was translated already. Such an
/// event is noted as skipped and refused: trying again never makes a second
/// translation. Returns the refusal, and the row for the durable history.
pub fn refuse_retry(
    event_id: &str,
    room_id: &str,
    lookup: &Lookup,
    stats: &mut Stats,
    at: Option<u64>,
) -> (r: (Option<String>, Option<DbEventOutcome>))
    requires
        old(stats)@.wf(),
    ensures
        opt_text(r.0) == retry_refusal(event_id@, lookup_view(*lookup)),
        final(stats)@.wf(),
        ({
            let subject = retry_subject(event_id@, room_id@);
            if lookup matches Ok(Some(_)) {
                &&& final(stats)@ == skip_noted(
                    old(stats)@,
                    subject,
                    SkipReason::AlreadyTranslated,
                    at,
                )
                &&& opt_row(r.1) == Some(
                    stored(skip_outcome(subject, SkipReason::AlreadyTranslated, at)),
                )
            } else {
                final(stats)@ == old(stats)@ && r.1 is None
            }
        }),
{
    match lookup {
        Err(problem) => {
            let mut s: String = "Could not check existing translations for ".to_owned();
            s.append(event_id);
            s.append(": ");
            s.append(problem.as_str());
            (Some(s), None)
        },
        Ok(None) => (None, None),
        Ok(Some(bot_event_id)) => {
            let subject = Subject {
                event_id: event_id.to_owned(),
                room_id: room_id.to_owned(),
                sender: None,
                msgtype: "n/a".to_owned(),
                text_source: "n/a",
            };
            let row = record_skip(stats, &subject, SkipReason::AlreadyTranslated, at);
            let mut s: String = event_id.to_owned();
            s.append(" was already translated as ");
            s.append(bot_event_id.as_str());
            s.append(" — edit the original message if you want to force a re-translation.");
            (Some(s), Some(row))
        },
    }
}

/// What came of fetching an event that is to be tried again.
pub enum Fetched {
    /// A room message.
    Message,
    /// It could not be fetched, and why.
    Missing(String),
    /// It still cannot be decrypted.
    Undecryptable,
    /// It is something else, and what is wrong with it as a message.
    NotAMessage(String),
}

impl Fetched {
    /// The answer once the event was fetched, and tried again where it could
    /// be.
    pub open spec fn answer(self, event_id: Seq<char>) -> Seq<char> {
        match self {
            Fetched::Message => "Retried "@ + event_id + " — run `!translate debug "@ + event_id
                + "` for the outcome."@,
            Fetched::Missing(problem) => "Could not fetch "@ + event_id + ": "@ + problem@,
            Fetched::Undecryptable => event_id
                + " is still not decryptable — no key available for it."@,
            Fetched::NotAMessage(problem) => event_id + " is not a room message: "@ + problem@,
        }
    }
}

/// The answer to `!translate retry` once the event was fetched, and tried again
/// where it could be.
pub fn retry_answer(event_id: &str, fetched: &Fetched) -> (s: String)
    ensures
        s@ == fetched.answer(event_id@),
{
    match fetched {
        Fetched::Message => {
            let mut s: String = "Retried ".to_owned();
            s.append(event_id);
            s.append(" — run `!translate debug ");
            s.append(event_id);
            s.append("` for the outcome.");
            s
        },
        Fetched::Missing(problem) => {
            let mut s: String = "Could not fetch ".to_owned();
            s.append(event_id);
            s.append(": ");
            s.append(problem.as_str());
            s
        },
        Fetched::Undecryptable => {
            let mut s: String = event_id.to_owned();
            s.append(" is still not decryptable — no key available for it.");
            s
        },
        Fetched::NotAMessage(problem) => {
            let mut s: String = event_id.to_owned();
            s.append(" is not a room message: ");
            s.append(problem.as_str());
            s
        },
    }
}

/// An event that was translated already is never tried again, and neither is
/// one of which that cannot be told.
pub proof fn law_retry_never_duplicates(
    event_id: Seq<char>,
    lookup: Result<Option<Seq<char>>, Seq<char>>,
)
    ensures
        retry_refusal(event_id, lookup) is None <==> lookup == Ok::<
            Option<Seq<char>>,
            Seq<char>,
        >(None),
{
}

// ── The steps ───────────────────────────────────────────────────────────────
/// What a retry waits for.
pub enum RetryState {
    /// Whether the event was translated already.
    Lookup { event_id: String },
    /// The event itself.
    Fetch { event_id: String },
    /// The handling of the event.
    Handling { event_id: String },
    /// Nothing more.
    Done,
}

pub enum RetryStateView {
    Lookup { event_id: Seq<char> },
    Fetch { event_id: Seq<char> },
    Handling { event_id: Seq<char> },
    Done,
}

impl View for RetryState {
    type V = RetryStateView;

    open spec fn view(&self) -> RetryStateView {
        match self {
            RetryState::Lookup { event_id } => RetryStateView::Lookup { event_id: event_id@ },
            RetryState::Fetch { event_id } => RetryStateView::Fetch { event_id: event_id@ },
            RetryState::Handling { event_id } => RetryStateView::Handling { event_id: event_id@ },
            RetryState::Done => RetryStateView::Done,
        }
    }
}

/// What a retry asks for next.
pub enum RetryAction {
    /// Look up the translation of the event.
    Lookup { event_id: String },
    /// Fetch the event.
    Fetch { event_id: String },
    /// Handle the fetched event like a new message.
    Handle,
    /// Answer with this text.
    Answer(String),
}

pub enum RetryActionView {
    Lookup { event_id: Seq<char> },
    Fetch { event_id: Seq<char> },
    Handle,
    Answer(Seq<char>),
}

impl View for RetryAction {
    type V = RetryActionView;

    open spec fn view(&self) -> RetryActionView {
        match self {
            RetryAction::Lookup { event_id } => RetryActionView::Lookup { event_id: event_id@ },
            RetryAction::Fetch { event_id } => RetryActionView::Fetch { event_id: event_id@ },
            RetryAction::Handle => RetryActionView::Handle,
            RetryAction::Answer(text) => RetryActionView::Answer(text@),
        }
    }
}

/// What came of an action of a retry.
pub enum RetryReply {
    Found(Lookup),
    Fetched(Fetched),
    Handled,
}

/// Whether `reply` answers what `state` waits for.
pub open spec fn answers_retry(state: RetryState, reply: RetryReply) -> bool {
    match state {
        RetryState::Lookup { .. } => reply is Found,
        RetryState::Fetch { .. } => reply is Fetched,
        RetryState::Handling { .. } => reply is Handled,
        RetryState::Done => false,
    }
}

/// The first step of `!translate retry` with the argument `arg`, given what the
/// argument is as an event ID.
pub open spec fn first_retry_step(arg: Seq<char>, parsed: Result<Seq<char>, Seq<char>>) -> (
    RetryStateView,
    RetryActionView,
) {
    match retry_start(arg, parsed) {
        Ok(event_id) => (
            RetryStateView::Lookup { event_id },
            RetryActionView::Lookup { event_id },
        ),
        Err(answer) => (RetryStateView::Done, RetryActionView::Answer(answer)),
    }
}

/// What follows in `state` upon `reply`.
pub open spec fn next_retry_step(state: RetryStateView, reply: RetryReply) -> (
    RetryStateView,
    RetryActionView,
) {
    match (state, reply) {
        (RetryStateView::Lookup { event_id }, RetryReply::Found(lookup)) => match retry_refusal(
            event_id,
            lookup_view(lookup),
        ) {
            Some(answer) => (RetryStateView::Done, RetryActionView::Answer(answer)),
            None => (RetryStateView::Fetch { event_id }, RetryActionView::Fetch { event_id }),
        },
        (RetryStateView::Fetch { event_id }, RetryReply::Fetched(fetched)) => match fetched {
            Fetched::Message => (
                RetryStateView::Handling { event_id },
                RetryActionView::Handle,
            ),
            _ => (RetryStateView::Done, RetryActionView::Answer(fetched.answer(event_id))),
        },
        (RetryStateView::Handling { event_id }, _) => (
            RetryStateView::Done,
            RetryActionView::Answer(Fetched::Message.answer(event_id)),
        ),
        _ => (RetryStateView::Done, RetryActionView::Answer(seq![])),
    }
}

/// Begins `!translate retry` with the argument `arg`.
pub fn translate_retry_command(arg: &str) -> (r: (RetryState, RetryAction))
    ensures
        (r.0@, r.1@) == first_retry_step(arg@, parsed_event_id(arg@)),
{
    match start_retry(arg) {
        Ok(event_id) => {
            let id = event_id.clone();
            (RetryState::Lookup { event_id }, RetryAction::Lookup { event_id: id })
        },
        Err(answer) => (RetryState::Done, RetryAction::Answer(answer)),
    }
}

/// A decision of a retry, with the row for the durable history where something
/// was noted.
pub struct RetryStep {
    pub state: RetryState,
    pub action: RetryAction,
    pub row: Option<DbEventOutcome>,
}

/// Whether a reply refuses a retry because the event was translated.
pub open spec fn found_translated(state: RetryStateView, reply: RetryReply) -> bool {
    state is Lookup && (reply matches RetryReply::Found(Ok(Some(_))))
}

/// Goes on with a retry that was asked for in `room_id`.
pub fn advance_retry(
    state: RetryState,
    reply: RetryReply,
    room_id: &str,
    stats: &mut Stats,
    at: Option<u64>,
) -> (r: RetryStep)
    requires
        answers_retry(state, reply),
        old(stats)@.wf(),
    ensures
        (r.state@, r.action@) == next_retry_step(state@, reply),
        final(stats)@.wf(),
        ({
            let refused = found_translated(state@, reply);
            let subject = retry_subject(state@->Lookup_event_id, room_id@);
            &&& final(stats)@ == if refused {
                skip_noted(old(stats)@, subject, SkipReason::AlreadyTranslated, at)
            } else {
                old(stats)@
            }
            &&& opt_row(r.row) == if refused {
                Some(stored(skip_outcome(subject, SkipReason::AlreadyTranslated, at)))
            } else {
                None
            }
        }),
{
    match (state, reply) {
        (RetryState::Lookup { event_id }, RetryReply::Found(lookup)) => {
            let (refusal, row) = refuse_retry(event_id.as_str(), room_id, &lookup, stats, at);
            match refusal {
                Some(answer) => RetryStep {
                    state: RetryState::Done,
                    action: RetryAction::Answer(answer),
                    row,
                },
                None => {
                    let id = event_id.clone();
                    RetryStep {
                        state: RetryState::Fetch { event_id },
                        action: RetryAction::Fetch { event_id: id },
                        row,
                    }
                },
            }
        },
        (RetryState::Fetch { event_id }, RetryReply::Fetched(fetched)) => {
            if let Fetched::Message = &fetched {
                return RetryStep {
                    state: RetryState::Handling { event_id },
                    action: RetryAction::Handle,
                    row: None,
                };
            }
            let answer = retry_answer(event_id.as_str(), &fetched);
            RetryStep { state: RetryState::Done, action: RetryAction::Answer(answer), row: None }
        },
        (RetryState::Handling { event_id }, _) => {
            let answer = retry_answer(event_id.as_str(), &Fetched::Message);
            RetryStep { state: RetryState::Done, action: RetryAction::Answer(answer), row: None }
        },
        _ => RetryStep {
            state: RetryState::Done,
            action: RetryAction::Answer(String::new()),
            row: None,
        },
    }
}

/// A retry handles an event only after the store was asked for it and knew of
/// no translation, and after it was fetched as a message.
pub proof fn law_retry_handles_only_untranslated_messages(
    state: RetryStateView,
    reply: RetryReply,
)
    ensures
        next_retry_step(state, reply).1 is Handle ==> state is Fetch && (
        reply matches RetryReply::Fetched(Fetched::Message)),
        next_retry_step(state, reply).0 is Fetch ==> state is Lookup && (
        reply matches RetryReply::Found(Ok(None))),
{
}

/// How `!translate retry` begins: with a lookup of the event that the argument
/// names, or with what is wrong about the argument.
pub proof fn law_retry_begins(arg: Seq<char>, event_id: Seq<char>, problem: Seq<char>)
    requires
        arg.len() > 0,
    ensures
        first_retry_step(arg, Ok(event_id)) == (
            RetryStateView::Lookup { event_id },
            RetryActionView::Lookup { event_id },
        ),
        first_retry_step(arg, Err(problem)) == (
            RetryStateView::Done,
            RetryActionView::Answer("'"@ + arg + "' is not a valid event ID: "@ + problem),
        ),
        first_retry_step(Seq::empty(), Ok(event_id)) == (
            RetryStateView::Done,
            RetryActionView::Answer("Usage: !translate retry <event-id>"@),
        ),
        first_retry_step(Seq::empty(), Err(problem)) == (
            RetryStateView::Done,
            RetryActionView::Answer("Usage: !translate retry <event-id>"@),
        ),
{
}

/// How a retry goes on: it stays with its event from the lookup over the fetch
/// to the handling, and where one of these fails it answers why.
pub proof fn law_retry_goes_on(event_id: Seq<char>, found: String, problem: String)
    ensures
        ({
            let lookup = RetryStateView::Lookup { event_id };
            let fetch = RetryStateView::Fetch { event_id };
            let handling = RetryStateView::Handling { event_id };
            let ended = |answer: Seq<char>| (RetryStateView::Done, RetryActionView::Answer(answer));
            &&& next_retry_step(lookup, RetryReply::Found(Ok(None))) == (
                fetch,
                RetryActionView::Fetch { event_id },
            )
            &&& next_retry_step(lookup, RetryReply::Found(Ok(Some(found)))) == ended(
                event_id + " was already translated as "@ + found@
                    + " — edit the original message if you want to force a re-translation."@,
            )
            &&& next_retry_step(lookup, RetryReply::Found(Err(problem))) == ended(
                "Could not check existing translations for "@ + event_id + ": "@ + problem@,
            )
            &&& next_retry_step(fetch, RetryReply::Fetched(Fetched::Message)) == (
                handling,
                RetryActionView::Handle,
            )
            &&& next_retry_step(fetch, RetryReply::Fetched(Fetched::Missing(problem))) == ended(
                "Could not fetch "@ + event_id + ": "@ + problem@,
            )
            &&& next_retry_step(fetch, RetryReply::Fetched(Fetched::Undecryptable)) == ended(
                event_id + " is still not decryptable — no key available for it."@,
            )
            &&& next_retry_step(fetch, RetryReply::Fetched(Fetched::NotAMessage(problem)))
                == ended(event_id + " is not a room message: "@ + problem@)
            &&& next_retry_step(handling, RetryReply::Handled) == ended(
                "Retried "@ + event_id + " — run `!translate debug "@ + event_id
                    + "` for the outcome."@,
            )
        }),
{
}

/// A retry is refused as already translated exactly where the store names a
/// translation, and the diagnostics then describe the event that was asked for.
pub proof fn law_refused_retry(
    event_id: Seq<char>,
    room_id: Seq<char>,
    found: String,
    problem: String,
)
    ensures
        ({
            let lookup = RetryStateView::Lookup { event_id };
            &&& found_translated(lookup, RetryReply::Found(Ok(Some(found))))
            &&& !found_translated(lookup, RetryReply::Found(Ok(None)))
            &&& !found_translated(lookup, RetryReply::Found(Err(problem)))
        }),
        forall|state: RetryStateView, reply: RetryReply|
            state !is Lookup ==> !(#[trigger] found_translated(state, reply)),
        retry_subject(event_id, room_id).event_id == event_id,
        retry_subject(event_id, room_id).room_id == room_id,
        retry_subject(event_id, room_id).sender is None,
        retry_subject(event_id, room_id).msgtype == "n/a"@,
        retry_subject(event_id, room_id).text_source == "n/a"@,
{
}

/// The states and actions of a retry say what they hold.
pub proof fn law_retry_step_views(id: String)
    ensures
        (RetryState::Lookup { event_id: id })@ == (RetryStateView::Lookup { event_id: id@ }),
        (RetryState::Fetch { event_id: id })@ == (RetryStateView::Fetch { event_id: id@ }),
        (RetryState::Handling { event_id: id })@ == (RetryStateView::Handling { event_id: id@ }),
        RetryState::Done@ == RetryStateView::Done,
        (RetryAction::Lookup { event_id: id })@ == (RetryActionView::Lookup { event_id: id@ }),
        (RetryAction::Fetch { event_id: id })@ == (RetryActionView::Fetch { event_id: id@ }),
        RetryAction::Handle@ == RetryActionView::Handle,
        RetryAction::Answer(id)@ == RetryActionView::Answer(id@),
{
}

} // verus!

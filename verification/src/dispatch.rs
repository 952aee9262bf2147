//! What the bot does with the events that reach it: messages, undecryptable
//! events and invitations.
use vstd::prelude::*;

use crate::compose::concat3;
use crate::config::{at_least_one, copy_strings};
use crate::ids::{
    is_listed, parse_room, parsed_room, room_server, room_server_name, server_part, user_ids,
    user_server_name, valid_user_ids,
};
use crate::interval::Interval;
use crate::message::{MessageEvent, MessageEventView, MessageType};
use crate::outcome::{stored, DbEventOutcome};
use crate::pipeline::{describe_message, message_subject, skip_row};
use crate::record::{record_skip, skip_noted, skip_outcome, Subject, SubjectView};
use crate::skip::SkipReason;
use crate::stats::{wrapped_sum, Stats, StatsView};
use crate::text::{opt_text, same_text, texts, trim_back, trimmed_back, CharClass};

verus! {

// ── Messages ────────────────────────────────────────────────────────────────
/// What is done with a message that arrives.
pub enum Dispatch {
    /// Not a matter of translation: a verification request, or the bot's own
    /// message.
    Ignore,
    /// It is skipped; the row is for the durable history.
    Skipped(DbEventOutcome),
    /// It is handled.
    Handle,
}

/// Whether a message is none of the bot's business.
pub open spec fn ignored(event: MessageEventView, bot_user_id: Seq<char>) -> bool {
    event.msgtype is VerificationRequest || event.sender == bot_user_id
}

/// The statistics after one more event was seen.
pub open spec fn seen(stats: StatsView) -> StatsView {
    StatsView { events_seen: wrapped_sum(stats.events_seen, 1), ..stats }
}

/// Decides what is done with a message that arrives in a room.
pub fn dispatch_message(
    event: &MessageEvent,
    bot_user_id: &str,
    room_joined: bool,
    stats: &mut Stats,
    at: Option<u64>,
) -> (r: Dispatch)
    requires
        old(stats)@.wf(),
    ensures
        final(stats)@.wf(),
        ({
            let subject = message_subject(event@, event@.msgtype.name(), "n/a"@);
            if ignored(event@, bot_user_id@) {
                r is Ignore && final(stats)@ == old(stats)@
            } else if !room_joined {
                &&& r matches Dispatch::Skipped(row) && row@ == stored(
                    skip_outcome(subject, SkipReason::RoomNotJoined, at),
                )
                &&& final(stats)@ == skip_noted(
                    seen(old(stats)@),
                    subject,
                    SkipReason::RoomNotJoined,
                    at,
                )
            } else {
                r is Handle && final(stats)@ == seen(old(stats)@)
            }
        }),
{
    if let MessageType::VerificationRequest = &event.msgtype {
        return Dispatch::Ignore;
    }
    if same_text(event.sender.as_str(), bot_user_id) {
        return Dispatch::Ignore;
    }
    stats.events_seen = stats.events_seen.wrapping_add(1);
    if !room_joined {
        let subject = describe_message(event, event.msgtype.msgtype(), "n/a");
        return Dispatch::Skipped(record_skip(stats, &subject, SkipReason::RoomNotJoined, at));
    }
    Dispatch::Handle
}

/// Whether a message was sent before the bot began to listen. Both times are
/// counted from the Unix epoch; a message without a time is no backlog.
pub open spec fn backlog(sent: Option<Interval>, listening_since: Option<Interval>) -> bool {
    match (sent, listening_since) {
        (Some(s), Some(l)) => s.nanos < l.nanos,
        _ => false,
    }
}

/// Skips a message that was sent before the bot began to listen. Both times are
/// counted from the Unix epoch, and `None` stands for one that has no such
/// count. Returns the row for the durable history where the message is skipped.
pub fn skip_if_backlog(
    event: &MessageEvent,
    sent: Option<Interval>,
    listening_since: Option<Interval>,
    stats: &mut Stats,
    at: Option<u64>,
) -> (row: Option<DbEventOutcome>)
    requires
        old(stats)@.wf(),
    ensures
        final(stats)@.wf(),
        ({
            let subject = message_subject(event@, event@.msgtype.name(), "n/a"@);
            &&& skip_row(row, backlog(sent, listening_since), subject, SkipReason::Backlog, at)
            &&& final(stats)@ == if backlog(sent, listening_since) {
                skip_noted(old(stats)@, subject, SkipReason::Backlog, at)
            } else {
                old(stats)@
            }
        }),
{
    if let (Some(s), Some(l)) = (sent, listening_since) {
        if s.nanos < l.nanos {
            let subject = describe_message(event, event.msgtype.msgtype(), "n/a");
            return Some(record_skip(stats, &subject, SkipReason::Backlog, at));
        }
    }
    None
}

/// An event that could not be decrypted, as the diagnostics describe it.
pub open spec fn encrypted_subject(
    event_id: Seq<char>,
    room_id: Seq<char>,
    sender: Seq<char>,
) -> SubjectView {
    SubjectView {
        event_id,
        room_id,
        sender: Some(sender),
        msgtype: "m.room.encrypted"@,
        text_source: "n/a"@,
    }
}

/// Notes an event that could not be decrypted, unless it is the bot's own.
/// Returns the row for the durable history.
pub fn note_undecryptable(
    event_id: &str,
    room_id: &str,
    sender: &str,
    bot_user_id: &str,
    stats: &mut Stats,
    at: Option<u64>,
) -> (row: Option<DbEventOutcome>)
    requires
        old(stats)@.wf(),
    ensures
        final(stats)@.wf(),
        ({
            let subject = encrypted_subject(event_id@, room_id@, sender@);
            let noted = sender@ != bot_user_id@;
            &&& skip_row(row, noted, subject, SkipReason::DecryptFailed, at)
            &&& final(stats)@ == if noted {
                skip_noted(
                    StatsView {
                        decrypt_failures: wrapped_sum(old(stats)@.decrypt_failures, 1),
                        ..old(stats)@
                    },
                    subject,
                    SkipReason::DecryptFailed,
                    at,
                )
            } else {
                old(stats)@
            }
        }),
{
    if same_text(sender, bot_user_id) {
        return None;
    }
    stats.decrypt_failures = stats.decrypt_failures.wrapping_add(1);
    let subject = Subject {
        event_id: event_id.to_owned(),
        room_id: room_id.to_owned(),
        sender: Some(sender.to_owned()),
        msgtype: "m.room.encrypted".to_owned(),
        text_source: "n/a",
    };
    Some(record_skip(stats, &subject, SkipReason::DecryptFailed, at))
}

/// The bot's own messages are never counted, skipped or handled, in whatever
/// room they arrive.
pub proof fn law_own_messages_are_ignored(event: MessageEventView, bot_user_id: Seq<char>)
    requires
        event.sender == bot_user_id,
    ensures
        ignored(event, bot_user_id),
{
}

// ── Invitations ─────────────────────────────────────────────────────────────
/// Whether an invitation is accepted: from anyone where nobody is listed, else
/// from those who are.
pub open spec fn accepted(allowed_inviters: Seq<Seq<char>>, inviter: Seq<char>) -> bool {
    allowed_inviters.len() == 0 || allowed_inviters.contains(inviter)
}

/// Whether an invitation by `inviter` is accepted.
pub fn accepts_inviter(allowed_inviters: &Vec<String>, inviter: &str) -> (r: bool)
    ensures
        r == accepted(texts(allowed_inviters@), inviter@),
{
    assert(texts(allowed_inviters@).len() == allowed_inviters@.len());
    allowed_inviters.len() == 0 || is_listed(allowed_inviters, inviter)
}

/// What is done about a membership event of an invited room.
#[derive(Clone, Copy, Debug, PartialEq, Eq, Structural)]
pub enum Invitation {
    /// It is about somebody else.
    NotForUs,
    /// Leave the room.
    Reject,
    /// Join the room.
    Accept,
}

pub open spec fn invitation(
    invited: Seq<char>,
    bot_user_id: Seq<char>,
    allowed_inviters: Seq<Seq<char>>,
    inviter: Seq<char>,
) -> Invitation {
    if invited != bot_user_id {
        Invitation::NotForUs
    } else if accepted(allowed_inviters, inviter) {
        Invitation::Accept
    } else {
        Invitation::Reject
    }
}

/// Decides on an invitation of `invited` by `inviter`.
pub fn decide_invitation(
    invited: &str,
    bot_user_id: &str,
    allowed_inviters: &Vec<String>,
    inviter: &str,
) -> (r: Invitation)
    ensures
        r == invitation(invited@, bot_user_id@, texts(allowed_inviters@), inviter@),
{
    if !same_text(invited, bot_user_id) {
        return Invitation::NotForUs;
    }
    if accepts_inviter(allowed_inviters, inviter) {
        Invitation::Accept
    } else {
        Invitation::Reject
    }
}

/// How a room is joined.
pub struct JoinPlan {
    pub room: String,
    /// The servers to ask.
    pub via: Vec<String>,
}

pub struct PlanView {
    pub room: Seq<char>,
    pub via: Seq<Seq<char>>,
}

pub open spec fn plan_view(r: Result<JoinPlan, String>) -> Result<PlanView, Seq<char>> {
    match r {
        Ok(plan) => Ok(PlanView { room: plan.room@, via: texts(plan.via@) }),
        Err(problem) => Err(problem@),
    }
}

/// The plan for joining what `room` names, through `via`.
pub open spec fn plan_for(room: Result<Seq<char>, Seq<char>>, via: Seq<Seq<char>>) -> Result<
    PlanView,
    Seq<char>,
> {
    match room {
        Ok(r) => Ok(PlanView { room: r, via }),
        Err(problem) => Err(problem),
    }
}

/// The servers through which an invited room is joined: the inviter's, then the
/// room's where it has another one.
pub open spec fn servers_via(inviter_server: Seq<char>, room_server_part: Option<Seq<char>>) -> Seq<
    Seq<char>,
> {
    match room_server_part {
        Some(server) => if server == inviter_server {
            seq![inviter_server]
        } else {
            seq![inviter_server, server]
        },
        None => seq![inviter_server],
    }
}

/// The server of a room, where it has one.
pub open spec fn own_server(room_server_part: Option<Seq<char>>) -> Seq<Seq<char>> {
    match room_server_part {
        Some(server) => seq![server],
        None => seq![],
    }
}

/// The servers through which an invited room is joined.
pub fn join_via(inviter_server: &str, room_server_part: &Option<String>) -> (r: Vec<String>)
    ensures
        texts(r@) == servers_via(inviter_server@, opt_text(*room_server_part)),
{
    let mut r: Vec<String> = Vec::new();
    r.push(inviter_server.to_owned());
    if let Some(server) = room_server_part {
        if !same_text(server.as_str(), inviter_server) {
            r.push(server.clone());
        }
    }
    assert(texts(r@) =~= servers_via(inviter_server@, opt_text(*room_server_part)));
    r
}

/// The servers through which the room of a pending invitation is joined: the
/// room's own, where it has one.
pub fn join_pending_via(room_server_part: &Option<String>) -> (r: Vec<String>)
    ensures
        texts(r@) == own_server(opt_text(*room_server_part)),
{
    let mut r: Vec<String> = Vec::new();
    if let Some(server) = room_server_part {
        r.push(server.clone());
    }
    assert(texts(r@) =~= own_server(opt_text(*room_server_part)));
    r
}

/// Plans how to join a room to which `inviter` has invited the bot. An error
/// says why `room_id` names no room.
pub fn plan_join(inviter: &str, room_id: &str) -> (r: Result<JoinPlan, String>)
    ensures
        plan_view(r) == plan_for(
            parsed_room(room_id@),
            servers_via(server_part(inviter@), room_server(room_id@)),
        ),
{
    let inviter_server = user_server_name(inviter);
    let via = join_via(inviter_server.as_str(), &room_server_name(room_id));
    match parse_room(room_id) {
        Ok(room) => Ok(JoinPlan { room, via }),
        Err(problem) => Err(problem),
    }
}

/// Plans how to join the room of an invitation that was pending at the start.
pub fn plan_pending_join(room_id: &str) -> (r: Result<JoinPlan, String>)
    ensures
        plan_view(r) == plan_for(parsed_room(room_id@), own_server(room_server(room_id@))),
{
    let via = join_pending_via(&room_server_name(room_id));
    match parse_room(room_id) {
        Ok(room) => Ok(JoinPlan { room, via }),
        Err(problem) => Err(problem),
    }
}

// ── Settings ────────────────────────────────────────────────────────────────
/// The user lists of the configuration, with the texts that are no user IDs
/// left out.
pub struct UserLists {
    pub admin_users: Vec<String>,
    pub allowed_inviters: Vec<String>,
    /// Who may verify with the bot.
    pub verification_users: Vec<String>,
}

/// The users who may verify: those configured, else those who may invite.
pub open spec fn verifiers(configured: Seq<Seq<char>>, allowed_inviters: Seq<Seq<char>>) -> Seq<
    Seq<char>,
> {
    if configured.len() == 0 {
        allowed_inviters
    } else {
        configured
    }
}

/// The users who may verify: those configured, else those who may invite.
pub fn verification_users(configured: Vec<String>, allowed_inviters: &Vec<String>) -> (r: Vec<
    String,
>)
    ensures
        texts(r@) == verifiers(texts(configured@), texts(allowed_inviters@)),
{
    assert(texts(configured@).len() == configured@.len());
    if configured.len() == 0 {
        copy_strings(allowed_inviters)
    } else {
        configured
    }
}

/// Reads the user lists of the configuration.
pub fn read_user_lists(
    admin_users: &Vec<String>,
    allowed_inviters: &Vec<String>,
    allowed_verifiers: &Vec<String>,
) -> (r: UserLists)
    ensures
        texts(r.admin_users@) == user_ids(texts(admin_users@)),
        texts(r.allowed_inviters@) == user_ids(texts(allowed_inviters@)),
        texts(r.verification_users@) == verifiers(
            user_ids(texts(allowed_verifiers@)),
            user_ids(texts(allowed_inviters@)),
        ),
{
    let inviters = valid_user_ids(allowed_inviters);
    let verifying = verification_users(valid_user_ids(allowed_verifiers), &inviters);
    UserLists {
        admin_users: valid_user_ids(admin_users),
        allowed_inviters: inviters,
        verification_users: verifying,
    }
}

/// The limits of device verification.
#[derive(Clone, Copy, Debug, PartialEq, Eq, Structural)]
pub struct VerificationLimits {
    pub flow_timeout: Interval,
    pub grant_ttl: Interval,
    pub max_concurrent: usize,
}

/// Reads the limits of device verification: each is at least one.
pub fn verification_limits(flow_timeout_secs: u64, grant_ttl_secs: u64, max_concurrent: usize) -> (r:
    VerificationLimits)
    ensures
        r.flow_timeout.nanos == at_least_one(flow_timeout_secs as int) * 1_000_000_000,
        r.grant_ttl.nanos == at_least_one(grant_ttl_secs as int) * 1_000_000_000,
        r.max_concurrent == at_least_one(max_concurrent as int),
{
    VerificationLimits {
        flow_timeout: Interval::from_secs(
            if flow_timeout_secs == 0 {
                1
            } else {
                flow_timeout_secs
            },
        ),
        grant_ttl: Interval::from_secs(
            if grant_ttl_secs == 0 {
                1
            } else {
                grant_ttl_secs
            },
        ),
        max_concurrent: if max_concurrent == 0 {
            1
        } else {
            max_concurrent
        },
    }
}

/// The backend's address without slashes at its end.
pub fn backend_url(url: &str) -> (r: String)
    ensures
        r@ == trimmed_back(url@, CharClass::Slash),
{
    trim_back(url, CharClass::Slash)
}

/// The address of one of the backend's endpoints.
pub fn endpoint(backend: &str, name: &str) -> (r: String)
    ensures
        r@ == backend@ + "/"@ + name@,
{
    concat3(backend, "/", name)
}

// ── Laws ────────────────────────────────────────────────────────────────────
/// Only verification requests and the bot's own messages are ignored, and every
/// other message is counted as seen, which changes no other counter.
pub proof fn law_ignored_messages(
    event: MessageEventView,
    bot_user_id: Seq<char>,
    stats: StatsView,
)
    ensures
        ignored(event, bot_user_id) <==> event.sender == bot_user_id
            || event.msgtype is VerificationRequest,
        seen(stats).events_seen == stats.events_seen.wrapping_add(1),
        seen(stats) == (StatsView { events_seen: seen(stats).events_seen, ..stats }),
{
}

/// A message is backlog exactly where it was sent before the bot listened.
pub proof fn law_backlog(sent: Interval, since: Interval, any: Option<Interval>)
    ensures
        backlog(Some(sent), Some(since)) <==> sent.nanos < since.nanos,
        !backlog(None, any),
        !backlog(any, None),
{
}

/// An undecryptable event is described by its own IDs and sender.
pub proof fn law_encrypted_subject(event_id: Seq<char>, room_id: Seq<char>, sender: Seq<char>)
    ensures
        ({
            let s = encrypted_subject(event_id, room_id, sender);
            s.event_id == event_id && s.room_id == room_id && s.sender == Some(sender) && s.msgtype
                == "m.room.encrypted"@ && s.text_source == "n/a"@
        }),
{
}

/// An invitation of the bot is accepted where nobody is listed or the inviter
/// is, and rejected else; one of somebody else is left alone.
pub proof fn law_invitations(
    invited: Seq<char>,
    bot: Seq<char>,
    allowed: Seq<Seq<char>>,
    inviter: Seq<char>,
)
    ensures
        ({
            let listed = exists|i: int| 0 <= i < allowed.len() && #[trigger] allowed[i] == inviter;
            let r = invitation(invited, bot, allowed, inviter);
            &&& r == Invitation::NotForUs <==> invited != bot
            &&& r == Invitation::Accept <==> invited == bot && (allowed.len() == 0 || listed)
            &&& accepted(allowed, inviter) <==> allowed.len() == 0 || listed
        }),
{
}

/// A room is joined through the inviter's server, and through the room's own
/// where that is another one; the room of a pending invitation through its own.
/// A text that names no room gives no plan.
pub proof fn law_join_plans(
    server: Seq<char>,
    other: Seq<char>,
    room: Seq<char>,
    via: Seq<Seq<char>>,
    problem: Seq<char>,
)
    ensures
        servers_via(server, None) == seq![server],
        servers_via(server, Some(server)) == seq![server],
        other != server ==> servers_via(server, Some(other)) == seq![server, other],
        own_server(Some(server)) == seq![server],
        own_server(None) == Seq::<Seq<char>>::empty(),
        plan_for(Ok(room), via) == Ok::<PlanView, Seq<char>>(PlanView { room, via }),
        plan_for(Err(problem), via) == Err::<PlanView, Seq<char>>(problem),
{
}

/// Who may verify: those who are configured, else those who may invite.
pub proof fn law_verifiers(configured: Seq<Seq<char>>, inviters: Seq<Seq<char>>)
    ensures
        configured.len() > 0 ==> verifiers(configured, inviters) == configured,
        configured.len() == 0 ==> verifiers(configured, inviters) == inviters,
{
}

/// A plan says the room and the servers that it holds.
pub proof fn law_plan_views(plan: JoinPlan, problem: String)
    ensures
        plan_view(Ok(plan)) matches Ok(v) && v.room == plan.room@ && v.via.len()
            == plan.via@.len() && forall|i: int|
            0 <= i < v.via.len() ==> #[trigger] v.via[i] == plan.via@[i]@,
        plan_view(Err(problem)) == Err::<PlanView, Seq<char>>(problem@),
{
}

} // verus!

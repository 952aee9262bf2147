//! What happened to one Matrix event, in memory and as a stored row.
use vstd::prelude::*;

use crate::guard::opt_str;
use crate::text::opt_text;

verus! {

/// A snapshot of what happened to one Matrix event.
pub struct EventOutcome {
    pub event_id: String,
    pub room_id: String,
    pub sender: Option<String>,
    pub msgtype: String,
    pub text_source: &'static str,
    /// `translate`, `skip` or `error`.
    pub decision: &'static str,
    pub reason: Option<&'static str>,
    pub source_lang: Option<String>,
    pub targets: Option<String>,
    /// `ok` or `failed`.
    pub matrix_send: Option<&'static str>,
    pub duration_ms: Option<u128>,
    /// Seconds since the Unix epoch; `None` for a time before it.
    pub at: Option<u64>,
}

pub struct EventOutcomeView {
    pub event_id: Seq<char>,
    pub room_id: Seq<char>,
    pub sender: Option<Seq<char>>,
    pub msgtype: Seq<char>,
    pub text_source: Seq<char>,
    pub decision: Seq<char>,
    pub reason: Option<Seq<char>>,
    pub source_lang: Option<Seq<char>>,
    pub targets: Option<Seq<char>>,
    pub matrix_send: Option<Seq<char>>,
    pub duration_ms: Option<u128>,
    pub at: Option<u64>,
}

impl View for EventOutcome {
    type V = EventOutcomeView;

    open spec fn view(&self) -> EventOutcomeView {
        EventOutcomeView {
            event_id: self.event_id@,
            room_id: self.room_id@,
            sender: opt_text(self.sender),
            msgtype: self.msgtype@,
            text_source: self.text_source@,
            decision: self.decision@,
            reason: opt_str(self.reason),
            source_lang: opt_text(self.source_lang),
            targets: opt_text(self.targets),
            matrix_send: opt_str(self.matrix_send),
            duration_ms: self.duration_ms,
            at: self.at,
        }
    }
}

/// A stored row of the outcome history, timestamps as Unix seconds.
#[derive(Debug, Clone)]
pub struct DbEventOutcome {
    pub event_id: String,
    pub room_id: String,
    pub sender: Option<String>,
    pub msgtype: String,
    pub text_source: String,
    pub decision: String,
    pub reason: Option<String>,
    pub source_lang: Option<String>,
    pub targets: Option<String>,
    pub matrix_send: Option<String>,
    pub duration_ms: Option<i64>,
    pub at: i64,
}

pub struct DbEventOutcomeView {
    pub event_id: Seq<char>,
    pub room_id: Seq<char>,
    pub sender: Option<Seq<char>>,
    pub msgtype: Seq<char>,
    pub text_source: Seq<char>,
    pub decision: Seq<char>,
    pub reason: Option<Seq<char>>,
    pub source_lang: Option<Seq<char>>,
    pub targets: Option<Seq<char>>,
    pub matrix_send: Option<Seq<char>>,
    pub duration_ms: Option<i64>,
    pub at: i64,
}

impl View for DbEventOutcome {
    type V = DbEventOutcomeView;

    open spec fn view(&self) -> DbEventOutcomeView {
        DbEventOutcomeView {
            event_id: self.event_id@,
            room_id: self.room_id@,
            sender: opt_text(self.sender),
            msgtype: self.msgtype@,
            text_source: self.text_source@,
            decision: self.decision@,
            reason: opt_text(self.reason),
            source_lang: opt_text(self.source_lang),
            targets: opt_text(self.targets),
            matrix_send: opt_text(self.matrix_send),
            duration_ms: self.duration_ms,
            at: self.at,
        }
    }
}

/// The Unix seconds of a clock reading: zero for a time before the epoch.
pub open spec fn unix_secs(elapsed: Option<u64>) -> i64 {
    match elapsed {
        Some(secs) => secs as i64,
        None => 0,
    }
}

/// The Unix seconds of a clock reading: zero for a time before the epoch.
pub fn secs_or_zero(elapsed: Option<u64>) -> (r: i64)
    ensures
        r == unix_secs(elapsed),
{
    match elapsed {
        Some(secs) => secs as i64,
        None => 0,
    }
}

/// Reads the system clock with `std::time::SystemTime`: the whole seconds since
/// the Unix epoch, or `None` where the clock stands before it. Nothing is
/// promised of the result, which depends on the time.
#[verifier::external_body]
fn clock_secs() -> Option<u64> {
    std::time::SystemTime::now().duration_since(std::time::UNIX_EPOCH).ok().map(|d| d.as_secs())
}

/// The current time in Unix seconds; zero where the clock stands before the
/// epoch. Nothing is promised of the result, which depends on the time; what is
/// made of a reading of the clock is `secs_or_zero`.
pub fn now_secs() -> i64 {
    let elapsed = clock_secs();
    secs_or_zero(elapsed)
}

/// The row that is stored for `o`.
pub open spec fn stored(o: EventOutcomeView) -> DbEventOutcomeView {
    DbEventOutcomeView {
        event_id: o.event_id,
        room_id: o.room_id,
        sender: o.sender,
        msgtype: o.msgtype,
        text_source: o.text_source,
        decision: o.decision,
        reason: o.reason,
        source_lang: o.source_lang,
        targets: o.targets,
        matrix_send: o.matrix_send,
        duration_ms: match o.duration_ms {
            Some(d) => Some(d as i64),
            None => None,
        },
        at: unix_secs(o.at),
    }
}

/// The same text, if there is one.
pub fn copy_opt(s: &Option<String>) -> (r: Option<String>)
    ensures
        opt_text(r) == opt_text(*s),
{
    match s {
        Some(t) => Some(t.clone()),
        None => None,
    }
}

fn own_opt(s: Option<&'static str>) -> (r: Option<String>)
    ensures
        opt_text(r) == opt_str(s),
{
    match s {
        Some(t) => Some(t.to_owned()),
        None => None,
    }
}

impl DbEventOutcome {
    /// The row that is stored for `o`.
    pub fn from(o: &EventOutcome) -> (r: DbEventOutcome)
        ensures
            r@ == stored(o@),
    {
        DbEventOutcome {
            event_id: o.event_id.clone(),
            room_id: o.room_id.clone(),
            sender: copy_opt(&o.sender),
            msgtype: o.msgtype.clone(),
            text_source: o.text_source.to_owned(),
            decision: o.decision.to_owned(),
            reason: own_opt(o.reason),
            source_lang: copy_opt(&o.source_lang),
            targets: copy_opt(&o.targets),
            matrix_send: own_opt(o.matrix_send),
            duration_ms: match o.duration_ms {
                Some(d) => Some(d as i64),
                None => None,
            },
            at: secs_or_zero(o.at),
        }
    }

    /// A row that says the same.
    pub fn copy(&self) -> (r: DbEventOutcome)
        ensures
            r@ == self@,
    {
        DbEventOutcome {
            event_id: self.event_id.clone(),
            room_id: self.room_id.clone(),
            sender: copy_opt(&self.sender),
            msgtype: self.msgtype.clone(),
            text_source: self.text_source.clone(),
            decision: self.decision.clone(),
            reason: copy_opt(&self.reason),
            source_lang: copy_opt(&self.source_lang),
            targets: copy_opt(&self.targets),
            matrix_send: copy_opt(&self.matrix_send),
            duration_ms: self.duration_ms,
            at: self.at,
        }
    }
}

/// The stored row of an outcome says what the outcome says; its time is in Unix
/// seconds, zero for a time before the epoch.
pub proof fn law_stored_row(o: EventOutcomeView)
    ensures
        ({
            let r = stored(o);
            &&& r.event_id == o.event_id && r.room_id == o.room_id && r.sender == o.sender
                && r.msgtype == o.msgtype && r.text_source == o.text_source && r.decision
                == o.decision && r.reason == o.reason && r.source_lang == o.source_lang && r.targets
                == o.targets && r.matrix_send == o.matrix_send
            &&& r.duration_ms is Some <==> o.duration_ms is Some
            &&& o.duration_ms matches Some(d) ==> (d <= i64::MAX ==> r.duration_ms->0 == d)
                && r.duration_ms == Some(d as i64)
            &&& o.at matches Some(secs) ==> (secs <= i64::MAX ==> r.at == secs) && r.at
                == secs as i64
            &&& o.at is None ==> r.at == 0
        }),
{
}

/// An outcome says what it holds.
pub proof fn law_outcome_views(o: EventOutcome)
    ensures
        o@.event_id == o.event_id@ && o@.room_id == o.room_id@ && o@.msgtype == o.msgtype@
            && o@.text_source == o.text_source@ && o@.decision == o.decision@ && o@.duration_ms
            == o.duration_ms && o@.at == o.at,
        o.sender matches Some(x) ==> o@.sender == Some(x@),
        o.sender is None ==> o@.sender is None,
        o.reason matches Some(x) ==> o@.reason == Some(x@),
        o.reason is None ==> o@.reason is None,
        o.source_lang matches Some(x) ==> o@.source_lang == Some(x@),
        o.source_lang is None ==> o@.source_lang is None,
        o.targets matches Some(x) ==> o@.targets == Some(x@),
        o.targets is None ==> o@.targets is None,
        o.matrix_send matches Some(x) ==> o@.matrix_send == Some(x@),
        o.matrix_send is None ==> o@.matrix_send is None,
{
}

} // verus!

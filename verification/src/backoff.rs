//! How long to wait before trying again: sending to Matrix, reconnecting the
//! sync loop and joining a room.
use vstd::prelude::*;

use crate::interval::{seconds, Interval};
use crate::stats::{wrapped_sum, Stats, StatsView};

verus! {

// ── Sending ─────────────────────────────────────────────────────────────────
pub const MATRIX_SEND_MAX_ATTEMPTS: u32 = 4;

pub const MATRIX_SEND_INITIAL_BACKOFF_SECS: u64 = 2;

pub const MATRIX_SEND_MAX_BACKOFF_SECS: u64 = 30;

/// When a server that limits the rate wants to be asked again.
#[derive(Clone, Copy, Debug, PartialEq, Eq, Structural)]
pub enum RetryAfter {
    /// After this long.
    Delay(Interval),
    /// At this time since the Unix epoch.
    Date(Interval),
}

/// The delay that `after` asks for at the time `now` since the Unix epoch.
pub open spec fn delay_asked(after: Option<RetryAfter>, now: Interval) -> Option<Interval> {
    match after {
        Some(RetryAfter::Delay(delay)) => Some(delay),
        Some(RetryAfter::Date(date)) => if now.nanos <= date.nanos {
            Some(Interval { nanos: (date.nanos - now.nanos) as u128 })
        } else {
            None
        },
        None => None,
    }
}

/// The delay that a server asks for, at the time `now` since the Unix epoch: a
/// delay as it stands, and the time that is left until a date. A date that has
/// passed asks for nothing.
pub fn asked_delay(after: Option<RetryAfter>, now: Interval) -> (r: Option<Interval>)
    ensures
        r == delay_asked(after, now),
{
    match after {
        Some(RetryAfter::Delay(delay)) => Some(delay),
        Some(RetryAfter::Date(date)) => if now.nanos <= date.nanos {
            Some(Interval { nanos: date.nanos - now.nanos })
        } else {
            None
        },
        None => None,
    }
}

/// The kind of a Matrix error, as far as it matters for sending.
#[derive(Clone, Copy, Debug, PartialEq, Eq, Structural)]
pub enum ServerError {
    /// `M_LIMIT_EXCEEDED`: the server limits the rate.
    LimitExceeded { retry_after: Option<RetryAfter> },
    /// Any other error, or none that is known.
    Other,
}

/// Why an event could not be sent.
#[derive(Clone, Copy, Debug, PartialEq, Eq, Structural)]
pub enum SendFailure {
    /// Not a matter of HTTP: serialization, encryption, the local store.
    NonHttp,
    /// An HTTP request without a Matrix error in reply, such as one that never
    /// reached the server.
    NoReply,
    /// A Matrix error of the server, with the delay that it asks for where it
    /// limits the rate.
    Api { status: u16, retry_after: Option<Interval> },
}

impl SendFailure {
    /// The failure that a Matrix error with the HTTP status `status` is, at the
    /// time `now` since the Unix epoch.
    pub open spec fn of_server(status: u16, error: ServerError, now: Interval) -> SendFailure {
        SendFailure::Api {
            status,
            retry_after: match error {
                ServerError::LimitExceeded { retry_after } => delay_asked(retry_after, now),
                ServerError::Other => None,
            },
        }
    }

    /// The failure that a Matrix error with the HTTP status `status` is, at the
    /// time `now` since the Unix epoch. Only a rate limit asks for a delay.
    pub fn from_server(status: u16, error: ServerError, now: Interval) -> (r: SendFailure)
        ensures
            r == SendFailure::of_server(status, error, now),
    {
        let retry_after = match error {
            ServerError::LimitExceeded { retry_after } => asked_delay(retry_after, now),
            ServerError::Other => None,
        };
        SendFailure::Api { status, retry_after }
    }

    /// Whether another attempt may succeed, and the delay the server asks for.
    pub open spec fn classified(self) -> (bool, Option<Interval>) {
        match self {
            SendFailure::NonHttp => (false, None),
            SendFailure::NoReply => (true, None),
            SendFailure::Api { status, retry_after } => (
                status == 429 || status >= 500,
                retry_after,
            ),
        }
    }
}

/// Tells whether a failed send is worth another attempt, and the delay that the
/// server asks for.
pub fn classify_send_error(failure: SendFailure) -> (r: (bool, Option<Interval>))
    ensures
        r == failure.classified(),
{
    match failure {
        SendFailure::NonHttp => (false, None),
        SendFailure::NoReply => (true, None),
        SendFailure::Api { status, retry_after } => (status == 429 || status >= 500, retry_after),
    }
}

/// A Matrix error is worth another attempt exactly where the server limits the
/// rate or fails. A delay is asked for only by a rate limit that names one: the
/// delay itself, or the time left until a date that has not passed.
pub proof fn law_delays_come_from_rate_limits(
    status: u16,
    error: ServerError,
    now: Interval,
    d: Interval,
)
    ensures
        ({
            let (retryable, delay) = SendFailure::of_server(status, error, now).classified();
            &&& retryable <==> status == 429 || status >= 500
            &&& delay == Some(d) <==> match error {
                ServerError::LimitExceeded { retry_after: Some(RetryAfter::Delay(asked)) } => d
                    == asked,
                ServerError::LimitExceeded { retry_after: Some(RetryAfter::Date(date)) } => now.nanos
                    + d.nanos == date.nanos,
                _ => false,
            }
        }),
{
}

/// The attempts at sending one event.
#[derive(Clone, Copy, Debug, PartialEq, Eq, Structural)]
pub struct SendRetry {
    /// The number of the running attempt, from one.
    pub attempt: u32,
    pub backoff: Interval,
}

impl SendRetry {
    pub open spec fn wf(self) -> bool {
        &&& 1 <= self.attempt <= MATRIX_SEND_MAX_ATTEMPTS
        &&& self.backoff.nanos <= seconds(MATRIX_SEND_MAX_BACKOFF_SECS).nanos
    }

    /// How long to wait before the next attempt: exactly as long as the server
    /// asks, else for the backoff. `None` to give up.
    pub open spec fn wait(self, failure: SendFailure) -> Option<Interval> {
        let (retryable, retry_after) = failure.classified();
        if !retryable || self.attempt == MATRIX_SEND_MAX_ATTEMPTS {
            None
        } else {
            Some(
                match retry_after {
                    Some(delay) => delay,
                    None => self.backoff.shorter(seconds(MATRIX_SEND_MAX_BACKOFF_SECS)),
                },
            )
        }
    }

    /// The next attempt.
    pub open spec fn next(self) -> SendRetry {
        SendRetry {
            attempt: (self.attempt + 1) as u32,
            backoff: self.backoff.twice().shorter(seconds(MATRIX_SEND_MAX_BACKOFF_SECS)),
        }
    }

    /// The first attempt.
    pub fn start() -> (r: SendRetry)
        ensures
            r.wf(),
            r.attempt == 1,
            r.backoff == seconds(MATRIX_SEND_INITIAL_BACKOFF_SECS),
    {
        SendRetry { attempt: 1, backoff: Interval::from_secs(MATRIX_SEND_INITIAL_BACKOFF_SECS) }
    }

    /// Decides after a failed attempt: how long to wait before the next one,
    /// which is then the running one, or `None` to give up.
    pub fn on_failure(&mut self, failure: SendFailure) -> (r: Option<Interval>)
        requires
            old(self).wf(),
        ensures
            r == old(self).wait(failure),
            r is Some ==> *final(self) == old(self).next() && final(self).wf(),
            r is None ==> *final(self) == *old(self),
    {
        let (retryable, retry_after) = classify_send_error(failure);
        if !retryable || self.attempt == MATRIX_SEND_MAX_ATTEMPTS {
            return None;
        }
        let limit = Interval::from_secs(MATRIX_SEND_MAX_BACKOFF_SECS);
        let wanted = match retry_after {
            Some(delay) => delay,
            None => self.backoff.at_most(limit),
        };
        self.attempt = self.attempt + 1;
        self.backoff = self.backoff.doubled().at_most(limit);
        Some(wanted)
    }
}

/// Sending is bounded: there is no attempt after the last, and a failure that is
/// not transient ends it. A wait is exactly as long as the server asks for, and
/// no longer than the longest backoff where it asks for nothing.
pub proof fn law_sending_is_bounded(retry: SendRetry, failure: SendFailure)
    requires
        retry.wf(),
    ensures
        retry.wait(failure) matches Some(delay) ==> {
            &&& failure.classified().0
            &&& match failure.classified().1 {
                Some(asked) => delay == asked,
                None => delay.nanos <= seconds(MATRIX_SEND_MAX_BACKOFF_SECS).nanos,
            }
            &&& retry.next().wf()
            &&& MATRIX_SEND_MAX_ATTEMPTS - retry.next().attempt < MATRIX_SEND_MAX_ATTEMPTS
                - retry.attempt
        },
        failure.classified().0 && retry.attempt < MATRIX_SEND_MAX_ATTEMPTS ==> retry.wait(
            failure,
        ) is Some,
        retry.attempt == MATRIX_SEND_MAX_ATTEMPTS ==> retry.wait(failure) is None,
{
}

// ── Synchronizing ───────────────────────────────────────────────────────────
pub const SYNC_RETRY_INITIAL_SECS: u64 = 5;

pub const SYNC_RETRY_MAX_SECS: u64 = 300;

pub const SYNC_HEALTHY_AFTER_SECS: u64 = 60;

/// The delay before the next session, after one that was healthy or not.
pub open spec fn sync_delay(previous_backoff: Interval, healthy: bool) -> Interval {
    if healthy {
        seconds(SYNC_RETRY_INITIAL_SECS)
    } else {
        previous_backoff
    }
}

/// The delay before reconnecting: the shortest one after a session that ran
/// long enough to count as healthy, else the current backoff.
pub fn sync_retry_delay(previous_backoff: Interval, attempt_was_healthy: bool) -> (r: Interval)
    ensures
        r == sync_delay(previous_backoff, attempt_was_healthy),
{
    if attempt_was_healthy {
        Interval::from_secs(SYNC_RETRY_INITIAL_SECS)
    } else {
        previous_backoff
    }
}

/// The backoff for the session after the next: twice the delay, up to the
/// limit.
pub open spec fn sync_backoff_after(delay: Interval) -> Interval {
    delay.twice().shorter(seconds(SYNC_RETRY_MAX_SECS))
}

/// The backoff for the session after the next: twice the delay, up to the
/// limit.
pub fn next_sync_backoff(delay: Interval) -> (r: Interval)
    requires
        delay.wf(),
        delay.twice().nanos == delay.nanos * 2,
    ensures
        r == sync_backoff_after(delay),
{
    delay.doubled().at_most(Interval::from_secs(SYNC_RETRY_MAX_SECS))
}

/// The reconnecting of the sync loop.
#[derive(Clone, Copy, Debug, PartialEq, Eq, Structural)]
pub struct SyncLoop {
    pub backoff: Interval,
}

impl SyncLoop {
    pub open spec fn wf(self) -> bool {
        seconds(SYNC_RETRY_INITIAL_SECS).nanos <= self.backoff.nanos <= seconds(
            SYNC_RETRY_MAX_SECS,
        ).nanos
    }

    /// The delay after a session that lasted `lasted`.
    pub open spec fn delay_after(self, lasted: Interval) -> Interval {
        sync_delay(self.backoff, lasted.nanos >= seconds(SYNC_HEALTHY_AFTER_SECS).nanos)
    }

    pub fn start() -> (r: SyncLoop)
        ensures
            r.wf(),
            r.backoff == seconds(SYNC_RETRY_INITIAL_SECS),
    {
        SyncLoop { backoff: Interval::from_secs(SYNC_RETRY_INITIAL_SECS) }
    }

    /// Counts the end of a session that lasted `lasted`, and tells how long to
    /// wait before the next one.
    pub fn on_session_end(&mut self, lasted: Interval, stats: &mut Stats) -> (delay: Interval)
        requires
            old(self).wf(),
            old(stats)@.wf(),
        ensures
            final(self).wf(),
            delay == old(self).delay_after(lasted),
            final(self).backoff == sync_backoff_after(delay),
            final(stats)@.wf(),
            final(stats)@ == (StatsView {
                sync_reconnects: wrapped_sum(old(stats)@.sync_reconnects, 1),
                ..old(stats)@
            }),
    {
        stats.sync_reconnects = stats.sync_reconnects.wrapping_add(1);
        let healthy: bool = lasted.nanos >= Interval::from_secs(SYNC_HEALTHY_AFTER_SECS).nanos;
        let delay = sync_retry_delay(self.backoff, healthy);
        self.backoff = next_sync_backoff(delay);
        delay
    }
}

/// The backoff after `n` more sessions in a row that were not healthy.
pub open spec fn backoff_after_failures(backoff: Interval, n: nat) -> Interval
    decreases n,
{
    if n == 0 {
        backoff
    } else {
        sync_backoff_after(sync_delay(backoff_after_failures(backoff, (n - 1) as nat), false))
    }
}

/// Two to the power of `n`.
pub open spec fn doublings(n: nat) -> int
    decreases n,
{
    if n == 0 {
        1
    } else {
        2 * doublings((n - 1) as nat)
    }
}

/// Over sessions in a row that are not healthy, the backoff doubles each time
/// until it reaches the limit, and stays there.
pub proof fn law_sync_backoff_doubles_and_caps(sync: SyncLoop, n: nat)
    requires
        sync.wf(),
    ensures
        backoff_after_failures(sync.backoff, n).nanos == if sync.backoff.nanos * doublings(n)
            <= seconds(SYNC_RETRY_MAX_SECS).nanos {
            sync.backoff.nanos * doublings(n)
        } else {
            seconds(SYNC_RETRY_MAX_SECS).nanos as int
        },
        n >= 6 ==> backoff_after_failures(sync.backoff, n) == seconds(SYNC_RETRY_MAX_SECS),
    decreases n,
{
    let start = sync.backoff.nanos;
    if n > 0 {
        let m = (n - 1) as nat;
        law_sync_backoff_doubles_and_caps(sync, m);
        let d = doublings(m);
        assert(start * (2 * d) == 2 * (start * d)) by (nonlinear_arith);
    } else {
        assert(start * 1 == start);
    }
    if n >= 6 {
        lemma_doublings_grow(n);
        let d = doublings(n);
        assert(start * d > 300_000_000_000) by (nonlinear_arith)
            requires
                d >= 64,
                start >= 5_000_000_000,
        ;
    }
}

proof fn lemma_doublings_grow(n: nat)
    requires
        n >= 6,
    ensures
        doublings(n) >= 64,
    decreases n,
{
    if n > 6 {
        lemma_doublings_grow((n - 1) as nat);
    } else {
        reveal_with_fuel(doublings, 8);
    }
}

// ── Joining ─────────────────────────────────────────────────────────────────
pub const JOIN_MAX_ATTEMPTS: u32 = 8;

pub const JOIN_INITIAL_DELAY_SECS: u64 = 2;

pub const JOIN_MAX_DELAY_SECS: u64 = 300;

/// What to do after a failed attempt to join a room.
#[derive(Clone, Copy, Debug, PartialEq, Eq, Structural)]
pub enum JoinStep {
    /// No further attempt can succeed.
    Terminal,
    /// All attempts are used up.
    Exhausted,
    /// Try again after this many seconds.
    RetryAfter(u64),
}

/// The attempts at joining one room.
#[derive(Clone, Copy, Debug, PartialEq, Eq, Structural)]
pub struct JoinRetry {
    /// The number of the running attempt, from one.
    pub attempt: u32,
    pub delay_secs: u64,
}

impl JoinRetry {
    pub open spec fn wf(self) -> bool {
        &&& 1 <= self.attempt <= JOIN_MAX_ATTEMPTS
        &&& JOIN_INITIAL_DELAY_SECS <= self.delay_secs <= JOIN_MAX_DELAY_SECS
    }

    pub open spec fn step(self, terminal: bool) -> JoinStep {
        if terminal {
            JoinStep::Terminal
        } else if self.attempt == JOIN_MAX_ATTEMPTS {
            JoinStep::Exhausted
        } else {
            JoinStep::RetryAfter(self.delay_secs)
        }
    }

    pub open spec fn next(self) -> JoinRetry {
        JoinRetry {
            attempt: (self.attempt + 1) as u32,
            delay_secs: if self.delay_secs * 2 <= JOIN_MAX_DELAY_SECS {
                (self.delay_secs * 2) as u64
            } else {
                JOIN_MAX_DELAY_SECS
            },
        }
    }

    /// The first attempt.
    pub fn start() -> (r: JoinRetry)
        ensures
            r.wf(),
            r == (JoinRetry { attempt: 1, delay_secs: JOIN_INITIAL_DELAY_SECS }),
    {
        JoinRetry { attempt: 1, delay_secs: JOIN_INITIAL_DELAY_SECS }
    }

    /// Decides after a failed attempt; `terminal` says that the server's answer
    /// is final.
    pub fn on_failure(&mut self, terminal: bool) -> (r: JoinStep)
        requires
            old(self).wf(),
        ensures
            r == old(self).step(terminal),
            r is RetryAfter ==> *final(self) == old(self).next() && final(self).wf(),
            !(r is RetryAfter) ==> *final(self) == *old(self),
    {
        if terminal {
            return JoinStep::Terminal;
        }
        if self.attempt == JOIN_MAX_ATTEMPTS {
            return JoinStep::Exhausted;
        }
        let delay: u64 = self.delay_secs;
        self.attempt = self.attempt + 1;
        self.delay_secs = if delay * 2 <= JOIN_MAX_DELAY_SECS {
            delay * 2
        } else {
            JOIN_MAX_DELAY_SECS
        };
        JoinStep::RetryAfter(delay)
    }
}

/// Joining is bounded: it ends at a terminal answer or after the last attempt,
/// and no wait is longer than the longest delay.
pub proof fn law_joining_is_bounded(retry: JoinRetry, terminal: bool)
    requires
        retry.wf(),
    ensures
        retry.step(terminal) matches JoinStep::RetryAfter(delay) ==> {
            &&& !terminal
            &&& delay <= JOIN_MAX_DELAY_SECS
            &&& retry.next().wf()
            &&& JOIN_MAX_ATTEMPTS - retry.next().attempt < JOIN_MAX_ATTEMPTS - retry.attempt
        },
        !terminal && retry.attempt < JOIN_MAX_ATTEMPTS ==> retry.step(terminal) is RetryAfter,
{
}

// ── Laws ────────────────────────────────────────────────────────────────────
/// Which failures of sending are worth another attempt: those that got no
/// answer, the rate limit and the server's own errors.
pub proof fn law_send_failures(status: u16, retry_after: Option<Interval>)
    ensures
        SendFailure::NonHttp.classified() == (false, None::<Interval>),
        SendFailure::NoReply.classified() == (true, None::<Interval>),
        (SendFailure::Api { status, retry_after }).classified() == (
            status == 429 || status >= 500,
            retry_after,
        ),
{
}

/// Sending is tried four times at most. It waits as long as the server asks, else
/// for the backoff, which starts at two seconds and doubles up to thirty.
pub proof fn law_send_waits(retry: SendRetry, failure: SendFailure)
    requires
        retry.wf(),
    ensures
        1 <= retry.attempt <= 4,
        retry.wait(failure) is Some <==> failure.classified().0 && retry.attempt < 4,
        retry.wait(failure) matches Some(delay) ==> delay == match failure.classified().1 {
            Some(asked) => asked,
            None => retry.backoff,
        },
        retry.attempt < 4 ==> retry.next().attempt == retry.attempt + 1,
        retry.next().backoff.nanos == if retry.backoff.nanos * 2 <= 30_000_000_000 {
            retry.backoff.nanos * 2
        } else {
            30_000_000_000
        },
        seconds(MATRIX_SEND_INITIAL_BACKOFF_SECS).nanos == 2_000_000_000,
{
}

/// After a session of a minute or more the wait is five seconds, after a shorter
/// one it is the backoff; the next backoff is twice the wait, up to five minutes.
pub proof fn law_sync_waits(sync: SyncLoop, lasted: Interval, delay: Interval)
    requires
        sync.wf(),
        delay.nanos <= 300_000_000_000,
    ensures
        lasted.nanos >= 60_000_000_000 ==> sync.delay_after(lasted).nanos == 5_000_000_000,
        lasted.nanos < 60_000_000_000 ==> sync.delay_after(lasted) == sync.backoff,
        sync_backoff_after(delay).nanos == if delay.nanos * 2 <= 300_000_000_000 {
            delay.nanos * 2
        } else {
            300_000_000_000
        },
        sync_delay(delay, false) == delay,
        sync_delay(delay, true).nanos == 5_000_000_000,
{
}

/// Joining is tried eight times at most, unless an answer is final. The waits
/// start at two seconds and double up to five minutes.
pub proof fn law_join_waits(retry: JoinRetry, terminal: bool)
    requires
        retry.wf(),
    ensures
        1 <= retry.attempt <= 8,
        terminal ==> retry.step(terminal) == JoinStep::Terminal,
        !terminal && retry.attempt == 8 ==> retry.step(terminal) == JoinStep::Exhausted,
        !terminal && retry.attempt < 8 ==> retry.step(terminal) == JoinStep::RetryAfter(
            retry.delay_secs,
        ) && retry.next().attempt == retry.attempt + 1,
        retry.next().delay_secs == if retry.delay_secs * 2 <= 300 {
            retry.delay_secs * 2
        } else {
            300
        },
        JOIN_INITIAL_DELAY_SECS == 2,
{
}

/// A server that names a delay asks for that delay, and one that names a date
/// for the time until then; a date that has passed asks for nothing.
pub proof fn law_asked_delays(delay: Interval, date: Interval, now: Interval)
    ensures
        delay_asked(Some(RetryAfter::Delay(delay)), now) == Some(delay),
        now.nanos <= date.nanos ==> (delay_asked(Some(RetryAfter::Date(date)), now) matches Some(d)
            && now.nanos + d.nanos == date.nanos),
        now.nanos > date.nanos ==> delay_asked(Some(RetryAfter::Date(date)), now) is None,
        delay_asked(None, now) is None,
{
}

/// A failure that the server reports keeps its status, and the delay that is
/// asked for with a rate limit; no other error asks for one.
pub proof fn law_server_failures(status: u16, retry_after: Option<RetryAfter>, now: Interval)
    ensures
        SendFailure::of_server(status, ServerError::LimitExceeded { retry_after }, now)
            == (SendFailure::Api { status, retry_after: delay_asked(retry_after, now) }),
        SendFailure::of_server(status, ServerError::Other, now) == (SendFailure::Api {
            status,
            retry_after: None,
        }),
{
}

} // verus!

//! Process-lifetime counters and the history of recent events.
use vstd::prelude::*;

use std::collections::VecDeque;

use crate::outcome::{
    stored, DbEventOutcome, DbEventOutcomeView, EventOutcome, EventOutcomeView,
};
use crate::skip::SkipReason;
use crate::text::to_chars;

verus! {

/// How many outcomes are kept in memory.
pub const EVENT_OUTCOME_HISTORY: usize = 300;

// ── Order of texts ──────────────────────────────────────────────────────────
/// Whether `a` comes before `b` in the order of their characters.
pub open spec fn text_before(a: Seq<char>, b: Seq<char>) -> bool
    decreases a.len(),
{
    if b.len() == 0 {
        false
    } else if a.len() == 0 {
        true
    } else if a[0] == b[0] {
        text_before(a.skip(1), b.skip(1))
    } else {
        a[0] < b[0]
    }
}

proof fn lemma_text_before_transitive(a: Seq<char>, b: Seq<char>, c: Seq<char>)
    requires
        text_before(a, b),
        text_before(b, c),
    ensures
        text_before(a, c),
    decreases a.len(),
{
    if a.len() > 0 && a[0] == b[0] && b[0] == c[0] {
        lemma_text_before_transitive(a.skip(1), b.skip(1), c.skip(1));
    }
}

proof fn lemma_text_before_irreflexive(a: Seq<char>)
    ensures
        !text_before(a, a),
    decreases a.len(),
{
    if a.len() > 0 {
        lemma_text_before_irreflexive(a.skip(1));
    }
}

fn comes_before(a: &str, b: &str) -> (r: bool)
    ensures
        r == text_before(a@, b@),
{
    let v = to_chars(a);
    let w = to_chars(b);
    let mut i: usize = 0;
    assert(v@.skip(0) =~= v@);
    assert(w@.skip(0) =~= w@);
    loop
        invariant
            i <= v@.len(),
            i <= w@.len(),
            v@ == a@,
            w@ == b@,
            text_before(a@, b@) == text_before(v@.skip(i as int), w@.skip(i as int)),
        decreases v@.len() - i,
    {
        if i == w.len() {
            return false;
        }
        if i == v.len() {
            return true;
        }
        if v[i] != w[i] {
            return v[i] < w[i];
        }
        assert(v@.skip(i as int).skip(1) =~= v@.skip(i + 1));
        assert(w@.skip(i as int).skip(1) =~= w@.skip(i + 1));
        i = i + 1;
    }
}

// ── Skip counters ───────────────────────────────────────────────────────────
/// How often events were skipped for one reason.
#[derive(Clone, Copy, PartialEq, Eq, Structural, Debug)]
pub struct SkipCount {
    pub reason: SkipReason,
    pub count: u64,
}

/// Whether `a` is listed before `b`: the more frequent reason first, reasons of
/// the same frequency by name.
pub open spec fn listed_before(a: SkipCount, b: SkipCount) -> bool {
    a.count > b.count || (a.count == b.count && text_before(a.reason.label(), b.reason.label()))
}

proof fn lemma_listed_transitive(a: SkipCount, b: SkipCount, c: SkipCount)
    requires
        listed_before(a, b),
        listed_before(b, c),
    ensures
        listed_before(a, c),
{
    if a.count == b.count && b.count == c.count {
        lemma_text_before_transitive(a.reason.label(), b.reason.label(), c.reason.label());
    }
}

proof fn lemma_listed_irreflexive(a: SkipCount)
    ensures
        !listed_before(a, a),
{
    lemma_text_before_irreflexive(a.reason.label());
}

fn is_listed_before(a: SkipCount, b: SkipCount) -> (r: bool)
    ensures
        r == listed_before(a, b),
{
    a.count > b.count || (a.count == b.count && comes_before(a.reason.as_str(), b.reason.as_str()))
}

/// Whether no entry of `s` stands behind one that is listed after it.
pub open spec fn in_listing_order(s: Seq<SkipCount>) -> bool {
    forall|i: int, j: int| 0 <= i < j < s.len() ==> !listed_before(#[trigger] s[j], #[trigger] s[i])
}

/// Where `x` goes in the listing `s`: before the first entry that it is listed
/// before.
pub open spec fn place(s: Seq<SkipCount>, x: SkipCount) -> int
    decreases s.len(),
{
    if s.len() == 0 {
        0
    } else if listed_before(x, s[0]) {
        0
    } else {
        1 + place(s.skip(1), x)
    }
}

/// The entries of `s`, the most frequent first, entries of the same frequency
/// by name.
pub open spec fn listing(s: Seq<SkipCount>) -> Seq<SkipCount>
    decreases s.len(),
{
    if s.len() == 0 {
        seq![]
    } else {
        let rest = listing(s.drop_last());
        rest.insert(place(rest, s.last()), s.last())
    }
}

proof fn lemma_place(s: Seq<SkipCount>, x: SkipCount)
    ensures
        0 <= place(s, x) <= s.len(),
        forall|i: int| 0 <= i < place(s, x) ==> !listed_before(x, #[trigger] s[i]),
        place(s, x) < s.len() ==> listed_before(x, s[place(s, x)]),
    decreases s.len(),
{
    if s.len() > 0 && !listed_before(x, s[0]) {
        let t = s.skip(1);
        lemma_place(t, x);
        assert forall|i: int| 0 <= i < place(s, x) implies !listed_before(x, #[trigger] s[i]) by {
            if i > 0 {
                assert(s[i] == t[i - 1]);
            }
        }
        if place(t, x) < t.len() {
            assert(t[place(t, x)] == s[place(s, x)]);
        }
    }
}

/// The listing holds exactly the counted entries, in listing order.
pub proof fn law_listing_is_ordered(s: Seq<SkipCount>)
    ensures
        in_listing_order(listing(s)),
        listing(s).to_multiset() == s.to_multiset(),
        listing(s).len() == s.len(),
    decreases s.len(),
{
    if s.len() == 0 {
        assert(listing(s) =~= s);
    } else {
        let rest = listing(s.drop_last());
        let x = s.last();
        let k = place(rest, x);
        let out = listing(s);
        law_listing_is_ordered(s.drop_last());
        lemma_place(rest, x);
        assert forall|i: int, j: int| 0 <= i < j < out.len() implies !listed_before(
            #[trigger] out[j],
            #[trigger] out[i],
        ) by {
            let before_i = if i < k { i } else { i - 1 };
            let before_j = if j < k { j } else { j - 1 };
            if j == k {
                assert(out[i] == rest[i]);
            } else if i == k {
                assert(out[j] == rest[before_j]);
                if listed_before(rest[before_j], x) {
                    lemma_listed_transitive(rest[before_j], x, rest[k]);
                    if before_j == k {
                        lemma_listed_irreflexive(rest[k]);
                    }
                }
            } else {
                assert(out[i] == rest[before_i]);
                assert(out[j] == rest[before_j]);
            }
        }
        out.to_multiset_ensures();
        assert(out[k] == x);
        assert(out.remove(k) =~= rest);
        assert(out.contains(x));
        assert(out.to_multiset() =~= rest.to_multiset().insert(x));
        s.drop_last().to_multiset_ensures();
        assert(s =~= s.drop_last().push(x));
    }
}

/// No reason has two entries.
pub open spec fn one_entry_each(s: Seq<SkipCount>) -> bool {
    forall|i: int, j: int|
        0 <= i < j < s.len() ==> (#[trigger] s[i]).reason != (#[trigger] s[j]).reason
}

/// The count of `reason` in `s`; zero where it has no entry.
pub open spec fn count_in(s: Seq<SkipCount>, reason: SkipReason) -> u64
    decreases s.len(),
{
    if s.len() == 0 {
        0
    } else if s.last().reason == reason {
        s.last().count
    } else {
        count_in(s.drop_last(), reason)
    }
}

/// Whether `reason` has an entry in `s`.
pub open spec fn has_entry(s: Seq<SkipCount>, reason: SkipReason) -> bool {
    exists|i: int| 0 <= i < s.len() && (#[trigger] s[i]).reason == reason
}

proof fn lemma_count_in_at(s: Seq<SkipCount>, i: int)
    requires
        one_entry_each(s),
        0 <= i < s.len(),
    ensures
        count_in(s, s[i].reason) == s[i].count,
    decreases s.len(),
{
    if i < s.len() - 1 {
        assert(s.drop_last()[i] == s[i]);
        assert(s[s.len() - 1] == s.last());
        assert(s[i].reason != s[s.len() - 1].reason);
        lemma_count_in_at(s.drop_last(), i);
    }
}

proof fn lemma_count_in_absent(s: Seq<SkipCount>, reason: SkipReason)
    requires
        !has_entry(s, reason),
    ensures
        count_in(s, reason) == 0,
    decreases s.len(),
{
    if s.len() > 0 {
        assert(s[s.len() - 1] == s.last());
        assert(!has_entry(s.drop_last(), reason)) by {
            if has_entry(s.drop_last(), reason) {
                let i = choose|i: int|
                    0 <= i < s.drop_last().len() && (#[trigger] s.drop_last()[i]).reason == reason;
                assert(s[i].reason == reason);
            }
        }
        lemma_count_in_absent(s.drop_last(), reason);
    }
}

// ── Statistics ──────────────────────────────────────────────────────────────
/// Process-lifetime counters and recent-event history. The counters wrap.
pub struct Stats {
    pub events_seen: u64,
    pub translated: u64,
    pub decrypt_failures: u64,
    pub translation_api_failures: u64,
    pub matrix_send_failures: u64,
    pub retries: u64,
    pub retries_succeeded: u64,
    pub sync_reconnects: u64,
    /// At most one entry per reason.
    pub skipped: Vec<SkipCount>,
    /// The kept outcomes, oldest first.
    pub recent: VecDeque<EventOutcome>,
}

pub struct StatsView {
    pub events_seen: u64,
    pub translated: u64,
    pub decrypt_failures: u64,
    pub translation_api_failures: u64,
    pub matrix_send_failures: u64,
    pub retries: u64,
    pub retries_succeeded: u64,
    pub sync_reconnects: u64,
    /// An entry for each reason that was ever counted.
    pub skipped: Seq<SkipCount>,
    /// The kept outcomes, oldest first.
    pub recent: Seq<EventOutcomeView>,
}

pub open spec fn outcome_views(s: Seq<EventOutcome>) -> Seq<EventOutcomeView> {
    Seq::new(s.len(), |i: int| s[i]@)
}

impl View for Stats {
    type V = StatsView;

    open spec fn view(&self) -> StatsView {
        StatsView {
            events_seen: self.events_seen,
            translated: self.translated,
            decrypt_failures: self.decrypt_failures,
            translation_api_failures: self.translation_api_failures,
            matrix_send_failures: self.matrix_send_failures,
            retries: self.retries,
            retries_succeeded: self.retries_succeeded,
            sync_reconnects: self.sync_reconnects,
            skipped: self.skipped@,
            recent: outcome_views(self.recent@),
        }
    }
}

/// `n` plus `m`, wrapping around.
pub open spec fn wrapped_sum(n: u64, m: u64) -> u64 {
    n.wrapping_add(m)
}

impl StatsView {
    /// At most one entry per reason, and a bounded history.
    pub open spec fn wf(self) -> bool {
        &&& one_entry_each(self.skipped)
        &&& self.recent.len() <= EVENT_OUTCOME_HISTORY
    }

    /// The statistics after one more event was skipped for `reason`.
    pub open spec fn skip_counted(self, reason: SkipReason) -> StatsView {
        StatsView { skipped: counted(self.skipped, reason), ..self }
    }

    /// The statistics after `outcome` became part of the history.
    pub open spec fn outcome_pushed(self, outcome: EventOutcomeView) -> StatsView {
        StatsView { recent: ring_push(self.recent, outcome), ..self }
    }
}

/// `s` after one more event was skipped for `reason`.
pub open spec fn counted(s: Seq<SkipCount>, reason: SkipReason) -> Seq<SkipCount>
    decreases s.len(),
{
    if s.len() == 0 {
        seq![SkipCount { reason, count: 1 }]
    } else if s[0].reason == reason {
        s.update(0, SkipCount { reason, count: wrapped_sum(s[0].count, 1) })
    } else {
        seq![s[0]] + counted(s.skip(1), reason)
    }
}

/// Counting a skip changes the count of its own reason, by one, and no other
/// count.
pub proof fn law_skip_counts_one_reason(s: Seq<SkipCount>, reason: SkipReason, other: SkipReason)
    requires
        one_entry_each(s),
    ensures
        one_entry_each(counted(s, reason)),
        count_in(counted(s, reason), reason) == wrapped_sum(count_in(s, reason), 1),
        other != reason ==> count_in(counted(s, reason), other) == count_in(s, other),
{
    lemma_counted_keeps_one_entry_each(s, reason);
    lemma_counted_entries(s, reason);
    let out = counted(s, reason);
    if has_entry(s, reason) {
        let i = choose|i: int| 0 <= i < s.len() && (#[trigger] s[i]).reason == reason;
        lemma_count_in_at(s, i);
        lemma_count_in_at(out, i);
    } else {
        lemma_count_in_absent(s, reason);
        lemma_count_in_at(out, s.len() as int);
    }
    if other != reason {
        if has_entry(s, other) {
            let i = choose|i: int| 0 <= i < s.len() && (#[trigger] s[i]).reason == other;
            lemma_count_in_at(s, i);
            lemma_count_in_at(out, i);
        } else {
            assert(!has_entry(out, other)) by {
                if has_entry(out, other) {
                    let i = choose|i: int| 0 <= i < out.len() && (#[trigger] out[i]).reason == other;
                    assert(i < s.len() && s[i].reason == other);
                }
            }
            lemma_count_in_absent(s, other);
            lemma_count_in_absent(out, other);
        }
    }
}

proof fn lemma_counted_entries(s: Seq<SkipCount>, reason: SkipReason)
    requires
        one_entry_each(s),
    ensures
        ({
            let out = counted(s, reason);
            &&& has_entry(s, reason) ==> out.len() == s.len()
            &&& !has_entry(s, reason) ==> out.len() == s.len() + 1 && out.last() == (SkipCount {
                reason,
                count: 1,
            })
            &&& forall|i: int|
                0 <= i < s.len() ==> (#[trigger] out[i]).reason == s[i].reason && out[i].count == (
                if s[i].reason == reason {
                    wrapped_sum(s[i].count, 1)
                } else {
                    s[i].count
                })
        }),
    decreases s.len(),
{
    let out = counted(s, reason);
    if s.len() == 0 {
        assert(!has_entry(s, reason));
    } else if s[0].reason == reason {
        assert(has_entry(s, reason));
    } else {
        let t = s.skip(1);
        assert(one_entry_each(t)) by {
            assert forall|i: int, j: int| 0 <= i < j < t.len() implies (#[trigger] t[i]).reason != (
            #[trigger] t[j]).reason by {
                assert(t[i] == s[i + 1]);
                assert(t[j] == s[j + 1]);
            }
        }
        lemma_counted_entries(t, reason);
        let rest = counted(t, reason);
        assert(has_entry(s, reason) == has_entry(t, reason)) by {
            if has_entry(s, reason) {
                let i = choose|i: int| 0 <= i < s.len() && (#[trigger] s[i]).reason == reason;
                assert(t[i - 1].reason == reason);
            }
            if has_entry(t, reason) {
                let i = choose|i: int| 0 <= i < t.len() && (#[trigger] t[i]).reason == reason;
                assert(s[i + 1].reason == reason);
            }
        }
        assert forall|i: int| 0 <= i < s.len() implies (#[trigger] out[i]).reason == s[i].reason
            && out[i].count == (if s[i].reason == reason {
            wrapped_sum(s[i].count, 1)
        } else {
            s[i].count
        }) by {
            if i > 0 {
                assert(out[i] == rest[i - 1]);
                assert(s[i] == t[i - 1]);
            }
        }
        if !has_entry(s, reason) {
            assert(out.last() == rest.last());
        }
    }
}

/// `recent` with `outcome` as its newest entry; the oldest leave where there
/// are more than `EVENT_OUTCOME_HISTORY`.
pub open spec fn ring_push(recent: Seq<EventOutcomeView>, outcome: EventOutcomeView) -> Seq<
    EventOutcomeView,
> {
    let all = recent.push(outcome);
    if all.len() > EVENT_OUTCOME_HISTORY {
        all.skip(all.len() - EVENT_OUTCOME_HISTORY)
    } else {
        all
    }
}

/// The position of the newest entry of `recent` for `event_id`.
pub open spec fn newest_for(recent: Seq<EventOutcomeView>, event_id: Seq<char>) -> Option<int>
    decreases recent.len(),
{
    if recent.len() == 0 {
        None
    } else if recent.last().event_id == event_id {
        Some(recent.len() - 1)
    } else {
        newest_for(recent.drop_last(), event_id)
    }
}

/// The history is bounded, the outcome that came last is the one found for its
/// event, and beyond the bound the oldest entries leave, no other.
pub proof fn law_history_is_bounded_and_newest_wins(
    recent: Seq<EventOutcomeView>,
    outcome: EventOutcomeView,
)
    requires
        recent.len() <= EVENT_OUTCOME_HISTORY,
    ensures
        ({
            let after = ring_push(recent, outcome);
            &&& after.len() <= EVENT_OUTCOME_HISTORY
            &&& newest_for(after, outcome.event_id) == Some(after.len() - 1)
            &&& after.last() == outcome
            &&& after.drop_last() == if recent.len() < EVENT_OUTCOME_HISTORY {
                recent
            } else {
                recent.skip(1)
            }
        }),
{
    let after = ring_push(recent, outcome);
    assert(after.last() == outcome);
    if recent.len() < EVENT_OUTCOME_HISTORY {
        assert(after.drop_last() =~= recent);
    } else {
        assert(after.drop_last() =~= recent.skip(1));
    }
}

/// The outcome reported for `event_id`: the newest one in memory, else what is
/// stored.
pub open spec fn found_outcome(
    recent: Seq<EventOutcomeView>,
    event_id: Seq<char>,
    stored_row: Option<DbEventOutcomeView>,
) -> Option<DbEventOutcomeView> {
    match newest_for(recent, event_id) {
        Some(i) => Some(stored(recent[i])),
        None => stored_row,
    }
}

pub open spec fn opt_row(row: Option<DbEventOutcome>) -> Option<DbEventOutcomeView> {
    match row {
        Some(r) => Some(r@),
        None => None,
    }
}

/// The names and counts of a listing.
pub open spec fn names(s: Seq<SkipCount>) -> Seq<(Seq<char>, u64)> {
    Seq::new(s.len(), |i: int| (s[i].reason.label(), s[i].count))
}

pub open spec fn named_counts(v: Seq<(&'static str, u64)>) -> Seq<(Seq<char>, u64)> {
    Seq::new(v.len(), |i: int| (v[i].0@, v[i].1))
}

impl Stats {
    /// Statistics of a process that has seen nothing yet.
    pub fn new() -> (r: Self)
        ensures
            r@.wf(),
            r@ == (StatsView {
                events_seen: 0,
                translated: 0,
                decrypt_failures: 0,
                translation_api_failures: 0,
                matrix_send_failures: 0,
                retries: 0,
                retries_succeeded: 0,
                sync_reconnects: 0,
                skipped: seq![],
                recent: seq![],
            }),
    {
        let r = Stats {
            events_seen: 0,
            translated: 0,
            decrypt_failures: 0,
            translation_api_failures: 0,
            matrix_send_failures: 0,
            retries: 0,
            retries_succeeded: 0,
            sync_reconnects: 0,
            skipped: Vec::new(),
            recent: VecDeque::new(),
        };
        assert(outcome_views(r.recent@) =~= seq![]);
        assert(r.skipped@ =~= seq![]);
        r
    }

    /// Counts one more event that was skipped for `reason`.
    pub fn record_skip(&mut self, reason: SkipReason)
        requires
            old(self)@.wf(),
        ensures
            final(self)@.wf(),
            final(self)@ == old(self)@.skip_counted(reason),
    {
        let ghost before = self.skipped@;
        let mut i: usize = 0;
        assert(before.skip(0) =~= before);
        assert(counted(before, reason) =~= before.take(0) + counted(before.skip(0), reason));
        while i < self.skipped.len() && self.skipped[i].reason != reason
            invariant
                i <= self.skipped@.len(),
                self.skipped@ == before,
                self@ == old(self)@,
                counted(before, reason) == before.take(i as int) + counted(
                    before.skip(i as int),
                    reason,
                ),
            decreases self.skipped@.len() - i,
        {
            let ghost rest = before.skip(i as int);
            assert(rest.skip(1) =~= before.skip(i + 1));
            assert(before.take(i as int) + (seq![rest[0]] + counted(before.skip(i + 1), reason))
                =~= before.take(i + 1) + counted(before.skip(i + 1), reason));
            i = i + 1;
        }
        if i < self.skipped.len() {
            let count: u64 = self.skipped[i].count.wrapping_add(1);
            self.skipped.set(i, SkipCount { reason, count });
            assert(self.skipped@ =~= before.take(i as int) + before.skip(i as int).update(
                0,
                SkipCount { reason, count },
            ));
        } else {
            self.skipped.push(SkipCount { reason, count: 1 });
            assert(before.skip(i as int) =~= seq![]);
            assert(self.skipped@ =~= before.take(i as int) + seq![SkipCount { reason, count: 1 }]);
        }
        proof {
            lemma_counted_keeps_one_entry_each(before, reason);
            assert(outcome_views(self.recent@) == old(self)@.recent);
        }
    }

    /// Makes `outcome` the newest entry of the history and returns the row to
    /// store for it.
    pub fn push_outcome(&mut self, outcome: EventOutcome) -> (row: DbEventOutcome)
        requires
            old(self)@.wf(),
        ensures
            final(self)@.wf(),
            final(self)@ == old(self)@.outcome_pushed(outcome@),
            row@ == stored(outcome@),
    {
        let row = DbEventOutcome::from(&outcome);
        let ghost before = outcome_views(self.recent@);
        self.recent.push_back(outcome);
        let ghost all = before.push(outcome@);
        assert(outcome_views(self.recent@) =~= all);
        while self.recent.len() > EVENT_OUTCOME_HISTORY
            invariant
                self@ == (StatsView { recent: outcome_views(self.recent@), ..old(self)@ }),
                all.len() <= EVENT_OUTCOME_HISTORY + 1,
                self.recent@.len() <= all.len(),
                all.len() > EVENT_OUTCOME_HISTORY ==> self.recent@.len() >= EVENT_OUTCOME_HISTORY,
                all.len() <= EVENT_OUTCOME_HISTORY ==> self.recent@.len() == all.len(),
                outcome_views(self.recent@) == all.skip(all.len() - self.recent@.len()),
            decreases self.recent@.len(),
        {
            let ghost held = self.recent@;
            let oldest = self.recent.pop_front();
            assert(self.recent@ =~= held.skip(1));
            assert(outcome_views(self.recent@) =~= outcome_views(held).skip(1));
            assert(all.skip(all.len() - held.len()).skip(1) =~= all.skip(
                all.len() - self.recent@.len(),
            ));
        }
        assert(outcome_views(self.recent@) =~= ring_push(before, outcome@));
        row
    }

    /// The newest kept outcome of `event_id`, if there is one.
    pub fn find_outcome_in_memory(&self, event_id: &str) -> (r: Option<&EventOutcome>)
        ensures
            match (r, newest_for(self@.recent, event_id@)) {
                (Some(o), Some(i)) => 0 <= i < self@.recent.len() && o@ == self@.recent[i],
                (None, None) => true,
                _ => false,
            },
    {
        let key: String = event_id.to_owned();
        let ghost all = self@.recent;
        let mut i: usize = self.recent.len();
        assert(all.take(all.len() as int) =~= all);
        while i > 0
            invariant
                i <= self.recent@.len() == all.len(),
                all == self@.recent,
                all == outcome_views(self.recent@),
                key@ == event_id@,
                newest_for(all, event_id@) == newest_for(all.take(i as int), event_id@),
            decreases i,
        {
            let o = &self.recent[i - 1];
            assert(o@ == all[i - 1]);
            assert(all.take(i as int).last() == all[i - 1]);
            assert(all.take(i as int).drop_last() =~= all.take(i - 1));
            if o.event_id == key {
                return Some(o);
            }
            i = i - 1;
        }
        None
    }

    /// The newest outcome of `event_id`: from memory where it is held there,
    /// else `stored_row`, what the durable history has of the event.
    pub fn find_outcome(&self, event_id: &str, stored_row: Option<DbEventOutcome>) -> (r: Option<
        DbEventOutcome,
    >)
        ensures
            opt_row(r) == found_outcome(self@.recent, event_id@, opt_row(stored_row)),
    {
        match self.find_outcome_in_memory(event_id) {
            Some(o) => Some(DbEventOutcome::from(o)),
            None => stored_row,
        }
    }

    /// The names of the reasons for which events were skipped, with their
    /// counts: the most frequent first, the same frequency by name.
    pub fn skipped_snapshot(&self) -> (r: Vec<(&'static str, u64)>)
        ensures
            named_counts(r@) == names(listing(self@.skipped)),
    {
        let mut sorted: Vec<SkipCount> = Vec::new();
        let ghost all = self.skipped@;
        let mut i: usize = 0;
        assert(sorted@ =~= listing(all.take(0)));
        while i < self.skipped.len()
            invariant
                i <= self.skipped@.len(),
                all == self.skipped@,
                sorted@ == listing(all.take(i as int)),
            decreases self.skipped@.len() - i,
        {
            let x = self.skipped[i];
            let mut k: usize = 0;
            assert(sorted@.skip(0) =~= sorted@);
            while k < sorted.len() && !is_listed_before(x, sorted[k])
                invariant
                    k <= sorted@.len(),
                    place(sorted@, x) == k + place(sorted@.skip(k as int), x),
                decreases sorted@.len() - k,
            {
                assert(sorted@.skip(k as int).skip(1) =~= sorted@.skip(k + 1));
                k = k + 1;
            }
            assert(all.take(i + 1).drop_last() =~= all.take(i as int));
            sorted.insert(k, x);
            i = i + 1;
        }
        assert(all.take(i as int) =~= all);
        let mut r: Vec<(&'static str, u64)> = Vec::new();
        let mut j: usize = 0;
        assert(named_counts(r@) =~= names(sorted@).take(0));
        while j < sorted.len()
            invariant
                j <= sorted@.len(),
                named_counts(r@) == names(sorted@).take(j as int),
            decreases sorted@.len() - j,
        {
            let ghost before = named_counts(r@);
            r.push((sorted[j].reason.as_str(), sorted[j].count));
            assert(named_counts(r@) =~= before.push(names(sorted@)[j as int]));
            assert(names(sorted@).take(j + 1) =~= names(sorted@).take(j as int).push(
                names(sorted@)[j as int],
            ));
            j = j + 1;
        }
        assert(names(sorted@).take(j as int) =~= names(sorted@));
        r
    }
}

proof fn lemma_counted_keeps_one_entry_each(s: Seq<SkipCount>, reason: SkipReason)
    requires
        one_entry_each(s),
    ensures
        one_entry_each(counted(s, reason)),
        forall|i: int|
            0 <= i < counted(s, reason).len() ==> (#[trigger] counted(s, reason)[i]).reason == reason
                || has_entry(s, counted(s, reason)[i].reason),
    decreases s.len(),
{
    if s.len() > 0 {
        let out = counted(s, reason);
        assert(s[0].reason == s[0].reason);
        if s[0].reason == reason {
            assert forall|i: int| 0 <= i < out.len() implies (#[trigger] out[i]).reason == reason
                || has_entry(s, out[i].reason) by {
                assert(s[i].reason == out[i].reason);
            }
        } else {
            let t = s.skip(1);
            let rest = counted(t, reason);
            assert(one_entry_each(t)) by {
                assert forall|i: int, j: int| 0 <= i < j < t.len() implies (
                #[trigger] t[i]).reason != (#[trigger] t[j]).reason by {
                    assert(t[i] == s[i + 1]);
                    assert(t[j] == s[j + 1]);
                }
            }
            lemma_counted_keeps_one_entry_each(t, reason);
            assert(out == seq![s[0]] + rest);
            assert forall|i: int| 0 <= i < out.len() implies (#[trigger] out[i]).reason == reason
                || has_entry(s, out[i].reason) by {
                if i == 0 {
                    assert(s[0].reason == out[0].reason);
                } else {
                    assert(out[i] == rest[i - 1]);
                    if out[i].reason != reason {
                        let k = choose|k: int|
                            0 <= k < t.len() && (#[trigger] t[k]).reason == out[i].reason;
                        assert(s[k + 1].reason == out[i].reason);
                    }
                }
            }
            assert forall|i: int, j: int| 0 <= i < j < out.len() implies (
            #[trigger] out[i]).reason != (#[trigger] out[j]).reason by {
                assert(out[j] == rest[j - 1]);
                if i == 0 {
                    if rest[j - 1].reason != reason {
                        let k = choose|k: int|
                            0 <= k < t.len() && (#[trigger] t[k]).reason == rest[j - 1].reason;
                        assert(s[k + 1] == t[k]);
                        assert(s[0].reason != s[k + 1].reason);
                    }
                } else {
                    assert(out[i] == rest[i - 1]);
                }
            }
        }
    }
}

/// One text comes before another where it is the shorter one and the other
/// begins with it, or where its character is the smaller at the first position
/// at which they differ.
pub proof fn law_order_of_texts(a: Seq<char>, b: Seq<char>)
    ensures
        text_before(a, b) <==> exists|k: int|
            {
                &&& 0 <= k <= a.len() && k < b.len()
                &&& #[trigger] a.take(k) == b.take(k)
                &&& k == a.len() || a[k] < b[k]
            },
    decreases a.len(),
{
    if b.len() > 0 && a.len() == 0 {
        assert(a.take(0) =~= b.take(0));
    } else if b.len() > 0 && a.len() > 0 {
        let (s, t) = (a.skip(1), b.skip(1));
        law_order_of_texts(s, t);
        if a[0] != b[0] {
            assert(a.take(0) =~= b.take(0));
            if exists|k: int|
                {
                    &&& 0 <= k <= a.len() && k < b.len()
                    &&& #[trigger] a.take(k) == b.take(k)
                    &&& k == a.len() || a[k] < b[k]
                } {
                let k = choose|k: int|
                    {
                        &&& 0 <= k <= a.len() && k < b.len()
                        &&& #[trigger] a.take(k) == b.take(k)
                        &&& k == a.len() || a[k] < b[k]
                    };
                if k > 0 {
                    assert(a.take(k)[0] == b.take(k)[0]);
                }
            }
        } else {
            if text_before(s, t) {
                let k = choose|k: int|
                    {
                        &&& 0 <= k <= s.len() && k < t.len()
                        &&& #[trigger] s.take(k) == t.take(k)
                        &&& k == s.len() || s[k] < t[k]
                    };
                assert(a.take(k + 1) =~= seq![a[0]] + s.take(k));
                assert(b.take(k + 1) =~= seq![b[0]] + t.take(k));
            }
            if exists|k: int|
                {
                    &&& 0 <= k <= a.len() && k < b.len()
                    &&& #[trigger] a.take(k) == b.take(k)
                    &&& k == a.len() || a[k] < b[k]
                } {
                let k = choose|k: int|
                    {
                        &&& 0 <= k <= a.len() && k < b.len()
                        &&& #[trigger] a.take(k) == b.take(k)
                        &&& k == a.len() || a[k] < b[k]
                    };
                assert(k > 0);
                assert(s.take(k - 1) =~= a.take(k).skip(1));
                assert(t.take(k - 1) =~= b.take(k).skip(1));
                assert(s.take(k - 1) == t.take(k - 1));
            }
        }
    }
}

/// Of two reasons the more frequent is listed first, and of two as frequent the
/// one whose name comes first. A listing names each reason with its count.
pub proof fn law_listing_order(a: SkipCount, b: SkipCount, s: Seq<SkipCount>)
    ensures
        a.count > b.count ==> listed_before(a, b),
        a.count < b.count ==> !listed_before(a, b),
        a.count == b.count ==> listed_before(a, b) == text_before(
            a.reason.label(),
            b.reason.label(),
        ),
        names(s).len() == s.len(),
        forall|i: int|
            0 <= i < s.len() ==> #[trigger] names(s)[i] == (s[i].reason.label(), s[i].count),
{
}

/// A reason that was not counted before gets an entry with the count one; the
/// entry of another has its count raised by one.
pub proof fn law_counting(s: Seq<SkipCount>, reason: SkipReason)
    requires
        one_entry_each(s),
    ensures
        ({
            let out = counted(s, reason);
            let known = exists|i: int| 0 <= i < s.len() && (#[trigger] s[i]).reason == reason;
            &&& !known ==> out == s.push(SkipCount { reason, count: 1 })
            &&& known ==> out.len() == s.len()
            &&& forall|i: int|
                0 <= i < s.len() ==> (#[trigger] out[i]).reason == s[i].reason && out[i].count == (
                if s[i].reason == reason {
                    s[i].count.wrapping_add(1)
                } else {
                    s[i].count
                })
        }),
{
    lemma_counted_entries(s, reason);
    let out = counted(s, reason);
    if !has_entry(s, reason) {
        assert forall|i: int| 0 <= i < s.len() implies out[i] == s[i] by {
            assert(out[i].reason == s[i].reason);
        }
        assert(out =~= s.push(SkipCount { reason, count: 1 }));
    }
}

/// The outcome that is reported for an event is its newest one in memory: the
/// last entry that is about it. Where there is none, it is the stored one.
pub proof fn law_reported_outcome(
    recent: Seq<EventOutcomeView>,
    event_id: Seq<char>,
    row: Option<DbEventOutcomeView>,
)
    ensures
        match newest_for(recent, event_id) {
            Some(i) => {
                &&& 0 <= i < recent.len()
                &&& recent[i].event_id == event_id
                &&& forall|j: int| i < j < recent.len() ==> (#[trigger] recent[j]).event_id != event_id
                &&& found_outcome(recent, event_id, row) == Some(stored(recent[i]))
            },
            None => {
                &&& forall|j: int| 0 <= j < recent.len() ==> (#[trigger] recent[j]).event_id
                    != event_id
                &&& found_outcome(recent, event_id, row) == row
            },
        },
    decreases recent.len(),
{
    if recent.len() > 0 && recent.last().event_id != event_id {
        let head = recent.drop_last();
        law_reported_outcome(head, event_id, row);
        assert forall|j: int| 0 <= j < head.len() implies head[j] == #[trigger] recent[j] by {
        }
        assert(recent[recent.len() - 1] == recent.last());
    }
}

/// The history keeps three hundred outcomes and not more.
pub proof fn law_history_length(recent: Seq<EventOutcomeView>, outcome: EventOutcomeView)
    requires
        recent.len() <= 300,
    ensures
        ring_push(recent, outcome).len() == if recent.len() < 300 {
            recent.len() + 1
        } else {
            300
        },
{
}

/// The statistics say what they hold, and so does a row for the history.
pub proof fn law_stats_views(stats: Stats, row: DbEventOutcome)
    ensures
        stats@.events_seen == stats.events_seen,
        stats@.translated == stats.translated,
        stats@.decrypt_failures == stats.decrypt_failures,
        stats@.translation_api_failures == stats.translation_api_failures,
        stats@.matrix_send_failures == stats.matrix_send_failures,
        stats@.retries == stats.retries,
        stats@.retries_succeeded == stats.retries_succeeded,
        stats@.sync_reconnects == stats.sync_reconnects,
        opt_row(Some(row)) == Some(row@),
        opt_row(None) is None,
        row@.event_id == row.event_id@ && row@.room_id == row.room_id@ && row@.msgtype
            == row.msgtype@ && row@.text_source == row.text_source@ && row@.decision
            == row.decision@ && row@.duration_ms == row.duration_ms && row@.at == row.at,
        row@.sender is Some <==> row.sender is Some,
        row.sender matches Some(x) ==> row@.sender == Some(x@),
        row@.reason is Some <==> row.reason is Some,
        row.reason matches Some(x) ==> row@.reason == Some(x@),
        row@.source_lang is Some <==> row.source_lang is Some,
        row.source_lang matches Some(x) ==> row@.source_lang == Some(x@),
        row@.targets is Some <==> row.targets is Some,
        row.targets matches Some(x) ==> row@.targets == Some(x@),
        row@.matrix_send is Some <==> row.matrix_send is Some,
        row.matrix_send matches Some(x) ==> row@.matrix_send == Some(x@),
{
}

} // verus!

//! Translations in flight: an edit or a redaction of an event that is still
//! being translated waits for that to finish.
use vstd::prelude::*;

use crate::db::{lookup_view, Lookup};

verus! {

/// How long an edit or a redaction waits for the translation of its event.
pub const PENDING_TRANSLATION_WAIT_SECS: u64 = 30;

/// The entries of a map, by event.
pub open spec fn entries<N>(v: Seq<(String, N)>) -> Seq<(Seq<char>, N)> {
    Seq::new(v.len(), |i: int| (v[i].0@, v[i].1))
}

/// The position of the entry of `event_id`.
pub open spec fn entry_at<N>(s: Seq<(Seq<char>, N)>, event_id: Seq<char>) -> Option<int>
    decreases s.len(),
{
    if s.len() == 0 {
        None
    } else if s.last().0 == event_id {
        Some(s.len() - 1)
    } else {
        entry_at(s.drop_last(), event_id)
    }
}

/// No event has two entries.
pub open spec fn one_entry_each<N>(s: Seq<(Seq<char>, N)>) -> bool {
    forall|i: int, j: int| 0 <= i < j < s.len() ==> (#[trigger] s[i]).0 != (#[trigger] s[j]).0
}

proof fn lemma_entry_at<N>(s: Seq<(Seq<char>, N)>, event_id: Seq<char>)
    ensures
        match entry_at(s, event_id) {
            Some(i) => 0 <= i < s.len() && s[i].0 == event_id,
            None => forall|i: int| 0 <= i < s.len() ==> (#[trigger] s[i]).0 != event_id,
        },
    decreases s.len(),
{
    if s.len() > 0 {
        lemma_entry_at(s.drop_last(), event_id);
        assert(forall|i: int| 0 <= i < s.len() - 1 ==> s.drop_last()[i] == #[trigger] s[i]);
        assert(s[s.len() - 1] == s.last());
    }
}

/// The events whose translation is running, each with the handle by which its
/// end is signalled.
pub struct PendingMap<N> {
    entries: Vec<(String, N)>,
}

impl<N> View for PendingMap<N> {
    type V = Map<Seq<char>, N>;

    closed spec fn view(&self) -> Map<Seq<char>, N> {
        let s = entries(self.entries@);
        Map::new(
            |event_id: Seq<char>| entry_at(s, event_id) is Some,
            |event_id: Seq<char>| s[entry_at(s, event_id)->0].1,
        )
    }
}

impl<N> PendingMap<N> {
    /// Whether every event has at most one entry.
    pub closed spec fn wf(self) -> bool {
        one_entry_each(entries(self.entries@))
    }

    pub fn new() -> (r: Self)
        ensures
            r.wf(),
            r@ == Map::<Seq<char>, N>::empty(),
    {
        let r = PendingMap { entries: Vec::new() };
        assert(r@ =~= Map::<Seq<char>, N>::empty());
        r
    }

    fn position(&self, event_id: &str) -> (r: Option<usize>)
        ensures
            match (r, entry_at(entries(self.entries@), event_id@)) {
                (Some(i), Some(j)) => i == j && 0 <= j < self.entries@.len(),
                (None, None) => true,
                _ => false,
            },
    {
        let key: String = event_id.to_owned();
        let ghost all = entries(self.entries@);
        let mut i: usize = self.entries.len();
        assert(all.take(all.len() as int) =~= all);
        while i > 0
            invariant
                i <= self.entries@.len() == all.len(),
                all == entries(self.entries@),
                key@ == event_id@,
                entry_at(all, event_id@) == entry_at(all.take(i as int), event_id@),
            decreases i,
        {
            assert(all.take(i as int).last() == all[i - 1]);
            assert(all.take(i as int).drop_last() =~= all.take(i - 1));
            if self.entries[i - 1].0 == key {
                return Some(i - 1);
            }
            i = i - 1;
        }
        None
    }

    /// Marks the translation of `event_id` as running; `handle` signals its
    /// end.
    pub fn mark_pending(&mut self, event_id: &str, handle: N)
        requires
            old(self).wf(),
        ensures
            final(self).wf(),
            final(self)@ == old(self)@.insert(event_id@, handle),
    {
        let ghost before = entries(self.entries@);
        proof {
            lemma_entry_at(before, event_id@);
        }
        match self.position(event_id) {
            Some(i) => {
                self.entries.set(i, (event_id.to_owned(), handle));
                assert(entries(self.entries@) =~= before.update(i as int, (event_id@, handle)));
            },
            None => {
                self.entries.push((event_id.to_owned(), handle));
                assert(entries(self.entries@) =~= before.push((event_id@, handle)));
            },
        }
        proof {
            let after = entries(self.entries@);
            assert(one_entry_each(after)) by {
                assert forall|i: int, j: int| 0 <= i < j < after.len() implies (
                #[trigger] after[i]).0 != (#[trigger] after[j]).0 by {
                    if j < before.len() {
                        assert(before[i].0 != before[j].0);
                    }
                }
            }
            assert forall|key: Seq<char>|
                {
                    &&& #[trigger] self@.contains_key(key) == old(self)@.insert(
                        event_id@,
                        handle,
                    ).contains_key(key)
                    &&& self@.contains_key(key) ==> self@[key] == old(self)@.insert(
                        event_id@,
                        handle,
                    )[key]
                } by {
                lemma_entry_at(before, key);
                lemma_entry_at(after, key);
                match entry_at(after, key) {
                    Some(k) => {
                        if key == event_id@ {
                            assert(after[k] == (event_id@, handle));
                        } else {
                            assert(k < before.len() && before[k] == after[k]);
                            let j = entry_at(before, key)->0;
                            if j != k {
                                assert(before[j].0 != before[k].0);
                            }
                        }
                    },
                    None => {
                        if let Some(j) = entry_at(before, key) {
                            assert(after[j].0 == key);
                        }
                        if key == event_id@ {
                            let j = match entry_at(before, key) {
                                Some(j) => j,
                                None => before.len() as int,
                            };
                            assert(after[j].0 == key);
                        }
                    },
                }
            }
            assert(self@ =~= old(self)@.insert(event_id@, handle));
        }
    }

    /// Marks the translation of `event_id` as finished and gives its handle
    /// back, by which a waiter is woken.
    pub fn release(&mut self, event_id: &str) -> (r: Option<N>)
        requires
            old(self).wf(),
        ensures
            final(self).wf(),
            final(self)@ == old(self)@.remove(event_id@),
            match r {
                Some(handle) => old(self)@.contains_key(event_id@) && handle
                    == old(self)@[event_id@],
                None => !old(self)@.contains_key(event_id@),
            },
    {
        let ghost before = entries(self.entries@);
        proof {
            lemma_entry_at(before, event_id@);
        }
        match self.position(event_id) {
            None => {
                assert(self@ =~= old(self)@.remove(event_id@));
                None
            },
            Some(i) => {
                let (key, handle) = self.entries.remove(i);
                let ghost after = entries(self.entries@);
                proof {
                    assert(after =~= before.remove(i as int));
                    assert(forall|k: int|
                        0 <= k < after.len() ==> #[trigger] after[k] == before[if k < i {
                            k
                        } else {
                            k + 1
                        }]);
                    assert forall|a: int, b: int| 0 <= a < b < after.len() implies (
                    #[trigger] after[a]).0 != (#[trigger] after[b]).0 by {
                        let x = if a < i {
                            a
                        } else {
                            a + 1
                        };
                        let y = if b < i {
                            b
                        } else {
                            b + 1
                        };
                        assert(before[x].0 != before[y].0);
                    }
                    assert forall|k: Seq<char>|
                        {
                            &&& #[trigger] self@.contains_key(k) == old(self)@.remove(
                                event_id@,
                            ).contains_key(k)
                            &&& self@.contains_key(k) ==> self@[k] == old(self)@.remove(
                                event_id@,
                            )[k]
                        } by {
                        lemma_entry_at(before, k);
                        lemma_entry_at(after, k);
                        match entry_at(after, k) {
                            Some(a) => {
                                let x = if a < i {
                                    a
                                } else {
                                    a + 1
                                };
                                assert(before[x] == after[a]);
                                let j = entry_at(before, k)->0;
                                if j < x {
                                    assert(before[j].0 != before[x].0);
                                }
                                if x < j {
                                    assert(before[x].0 != before[j].0);
                                }
                                if k == event_id@ {
                                    assert(x != i);
                                    if x < i {
                                        assert(before[x].0 != before[i as int].0);
                                    } else {
                                        assert(before[i as int].0 != before[x].0);
                                    }
                                }
                            },
                            None => {
                                if let Some(j) = entry_at(before, k) {
                                    if j != i {
                                        let a = if j < i {
                                            j
                                        } else {
                                            j - 1
                                        };
                                        assert(after[a] == before[j]);
                                    }
                                }
                            },
                        }
                    }
                    assert(self@ =~= old(self)@.remove(event_id@));
                }
                Some(handle)
            },
        }
    }

    /// The handle of `event_id`, where its translation is running.
    pub fn get(&self, event_id: &str) -> (r: Option<&N>)
        ensures
            match r {
                Some(handle) => self@.contains_key(event_id@) && *handle == self@[event_id@],
                None => !self@.contains_key(event_id@),
            },
    {
        match self.position(event_id) {
            Some(i) => Some(&self.entries[i].1),
            None => None,
        }
    }
}

// ── Waiting ─────────────────────────────────────────────────────────────────
/// What an edit or a redaction does after its first lookup.
pub enum AwaitStep {
    /// Go on with this answer of the store.
    Resolved(Lookup),
    /// Wait for the running translation, then look up again.
    Wait,
}

/// Whether to wait after a first lookup, given whether the translation of the
/// event was running before it: only where nothing was found and there is
/// something to wait for.
pub open spec fn waits(first: Result<Option<Seq<char>>, Seq<char>>, in_flight: bool) -> bool {
    in_flight && first == Ok::<Option<Seq<char>>, Seq<char>>(None)
}

/// Decides after the first lookup, given whether the translation of the event
/// was running before it.
pub fn after_first_lookup(first: Lookup, in_flight: bool) -> (r: AwaitStep)
    ensures
        match r {
            AwaitStep::Wait => waits(lookup_view(first), in_flight),
            AwaitStep::Resolved(answer) => !waits(lookup_view(first), in_flight)
                && lookup_view(answer) == lookup_view(first),
        },
{
    match first {
        Ok(None) => if in_flight {
            AwaitStep::Wait
        } else {
            AwaitStep::Resolved(Ok(None))
        },
        other => AwaitStep::Resolved(other),
    }
}

/// What the lookup of an edit or a redaction comes to, the second lookup being
/// the one after the wait.
pub open spec fn awaited(
    first: Result<Option<Seq<char>>, Seq<char>>,
    in_flight: bool,
    second: Result<Option<Seq<char>>, Seq<char>>,
) -> Result<Option<Seq<char>>, Seq<char>> {
    if waits(first, in_flight) {
        second
    } else {
        first
    }
}

/// A translation that is there is found without a wait, one that lands during
/// the wait is found after it, and an event that is not being translated is
/// answered at once.
pub proof fn law_waiting_only_for_running_translations(
    first: Result<Option<Seq<char>>, Seq<char>>,
    in_flight: bool,
    second: Result<Option<Seq<char>>, Seq<char>>,
)
    ensures
        first matches Ok(Some(_)) ==> !waits(first, in_flight) && awaited(first, in_flight, second)
            == first,
        !in_flight ==> !waits(first, in_flight) && awaited(first, in_flight, second) == first,
        in_flight && first == Ok::<Option<Seq<char>>, Seq<char>>(None) ==> awaited(
            first,
            in_flight,
            second,
        ) == second,
{
}

/// An event that is marked is pending and no other event becomes so; once
/// released it is pending no longer.
pub proof fn law_pending_marks_one_event<N>(
    pending: Map<Seq<char>, N>,
    event_id: Seq<char>,
    handle: N,
    other: Seq<char>,
)
    ensures
        pending.insert(event_id, handle).contains_key(event_id),
        !pending.insert(event_id, handle).remove(event_id).contains_key(event_id),
        other != event_id ==> pending.insert(event_id, handle).contains_key(other)
            == pending.contains_key(other),
        other != event_id ==> pending.remove(event_id).contains_key(other)
            == pending.contains_key(other),
{
}

/// An edit or a redaction waits exactly where no translation is found and one is
/// running, and then for half a minute at most.
pub proof fn law_waiting(found: Seq<char>, problem: Seq<char>, in_flight: bool)
    ensures
        waits(Ok(None), true),
        !waits(Ok(None), false),
        !waits(Ok(Some(found)), in_flight),
        !waits(Err(problem), in_flight),
        PENDING_TRANSLATION_WAIT_SECS == 30,
{
}

} // verus!

//! The bot's durable state, as rows: which event was translated into which,
//! and what happened to recent events.
//!
//! Translations are functional state (edits, redactions and duplicate
//! prevention depend on them), so they are kept by age, with a row cap as a
//! backstop. Outcomes are diagnostics and kept by number.
use vstd::prelude::*;

use std::collections::VecDeque;

use vstd::hash_map::StringHashMap;

use crate::outcome::{DbEventOutcome, DbEventOutcomeView};
use crate::stats::opt_row;
use crate::text::{opt_text, texts};

verus! {

/// How long a translation is kept: 180 days.
pub const TRANSLATIONS_MAX_AGE_SECS: i64 = 15_552_000;

/// How many translations are kept at most.
pub const TRANSLATIONS_ROW_CAP: usize = 100_000;

/// How many outcomes are kept at most.
pub const EVENT_OUTCOMES_RETENTION: usize = 5_000;

// ── Translations ────────────────────────────────────────────────────────────
/// That an event was translated.
pub struct TranslationRow {
    pub original_event_id: String,
    pub bot_event_id: String,
    pub room_id: String,
    /// Unix seconds.
    pub created_at: i64,
}

pub struct RowView {
    pub original_event_id: Seq<char>,
    pub bot_event_id: Seq<char>,
    pub room_id: Seq<char>,
    pub created_at: i64,
}

impl View for TranslationRow {
    type V = RowView;

    open spec fn view(&self) -> RowView {
        RowView {
            original_event_id: self.original_event_id@,
            bot_event_id: self.bot_event_id@,
            room_id: self.room_id@,
            created_at: self.created_at,
        }
    }
}

pub open spec fn row_views(v: Seq<TranslationRow>) -> Seq<RowView> {
    Seq::new(v.len(), |i: int| v[i]@)
}

/// No event has two rows.
pub open spec fn one_row_each(rows: Seq<RowView>) -> bool {
    forall|i: int, j: int|
        0 <= i < j < rows.len() ==> (#[trigger] rows[i]).original_event_id != (
        #[trigger] rows[j]).original_event_id
}

/// The position of the row of `event_id`.
pub open spec fn row_at(rows: Seq<RowView>, event_id: Seq<char>) -> Option<int>
    decreases rows.len(),
{
    if rows.len() == 0 {
        None
    } else if rows.last().original_event_id == event_id {
        Some(rows.len() - 1)
    } else {
        row_at(rows.drop_last(), event_id)
    }
}

/// The bot's translation of `event_id`.
pub open spec fn looked_up(rows: Seq<RowView>, event_id: Seq<char>) -> Option<Seq<char>> {
    match row_at(rows, event_id) {
        Some(i) => Some(rows[i].bot_event_id),
        None => None,
    }
}

/// `rows` with `row`, or, where its event has a row already, with that row
/// naming the new translation.
pub open spec fn upserted(rows: Seq<RowView>, row: RowView) -> Seq<RowView> {
    match row_at(rows, row.original_event_id) {
        Some(i) => rows.update(i, RowView { bot_event_id: row.bot_event_id, ..rows[i] }),
        None => rows.push(row),
    }
}

/// The rows that were created at `cutoff` or later.
pub open spec fn unexpired(rows: Seq<RowView>, cutoff: int) -> Seq<RowView>
    decreases rows.len(),
{
    if rows.len() == 0 {
        seq![]
    } else {
        let head = unexpired(rows.drop_last(), cutoff);
        if rows.last().created_at >= cutoff {
            head.push(rows.last())
        } else {
            head
        }
    }
}

/// The events of the rows that were created before `cutoff`.
pub open spec fn expired(rows: Seq<RowView>, cutoff: int) -> Seq<Seq<char>>
    decreases rows.len(),
{
    if rows.len() == 0 {
        seq![]
    } else {
        let head = expired(rows.drop_last(), cutoff);
        if rows.last().created_at >= cutoff {
            head
        } else {
            head.push(rows.last().original_event_id)
        }
    }
}

/// The position of the oldest row, the first of those of the same age.
pub open spec fn oldest(rows: Seq<RowView>) -> int
    decreases rows.len(),
{
    if rows.len() <= 1 {
        0
    } else {
        let best = oldest(rows.drop_last());
        if rows.last().created_at < rows[best].created_at {
            rows.len() - 1
        } else {
            best
        }
    }
}

/// `rows` without the oldest ones beyond the cap.
pub open spec fn capped(rows: Seq<RowView>) -> Seq<RowView>
    decreases rows.len(),
{
    if rows.len() <= TRANSLATIONS_ROW_CAP {
        rows
    } else {
        proof {
            lemma_oldest(rows);
        }
        capped(rows.remove(oldest(rows)))
    }
}

/// The events of the oldest rows beyond the cap.
pub open spec fn evicted(rows: Seq<RowView>) -> Seq<Seq<char>>
    decreases rows.len(),
{
    if rows.len() <= TRANSLATIONS_ROW_CAP {
        seq![]
    } else {
        proof {
            lemma_oldest(rows);
        }
        seq![rows[oldest(rows)].original_event_id] + evicted(rows.remove(oldest(rows)))
    }
}

/// The rows after `row` was recorded at the time `row.created_at`.
pub open spec fn recorded(rows: Seq<RowView>, row: RowView) -> Seq<RowView> {
    capped(unexpired(upserted(rows, row), row.created_at - TRANSLATIONS_MAX_AGE_SECS))
}

/// The events whose rows leave when `row` is recorded.
pub open spec fn dropped(rows: Seq<RowView>, row: RowView) -> Seq<Seq<char>> {
    let cutoff = row.created_at - TRANSLATIONS_MAX_AGE_SECS;
    expired(upserted(rows, row), cutoff) + evicted(unexpired(upserted(rows, row), cutoff))
}

/// The rows without the one of `event_id`.
pub open spec fn removed(rows: Seq<RowView>, event_id: Seq<char>) -> Seq<RowView> {
    match row_at(rows, event_id) {
        Some(i) => rows.remove(i),
        None => rows,
    }
}

/// The oldest row is one of the rows: none is older, and none before it is as
/// old.
pub proof fn lemma_oldest(rows: Seq<RowView>)
    requires
        rows.len() > 0,
    ensures
        0 <= oldest(rows) < rows.len(),
        forall|i: int|
            0 <= i < rows.len() ==> rows[oldest(rows)].created_at <= (#[trigger] rows[i]).created_at,
        forall|i: int|
            0 <= i < oldest(rows) ==> rows[oldest(rows)].created_at < (#[trigger] rows[i]).created_at,
    decreases rows.len(),
{
    if rows.len() > 1 {
        let head = rows.drop_last();
        lemma_oldest(head);
        assert(forall|i: int| 0 <= i < head.len() ==> head[i] == #[trigger] rows[i]);
    }
}

proof fn lemma_row_at(rows: Seq<RowView>, event_id: Seq<char>)
    ensures
        match row_at(rows, event_id) {
            Some(i) => 0 <= i < rows.len() && rows[i].original_event_id == event_id,
            None => forall|i: int|
                0 <= i < rows.len() ==> (#[trigger] rows[i]).original_event_id != event_id,
        },
    decreases rows.len(),
{
    if rows.len() > 0 {
        let head = rows.drop_last();
        lemma_row_at(head, event_id);
        assert(forall|i: int| 0 <= i < head.len() ==> head[i] == #[trigger] rows[i]);
        assert(rows[rows.len() - 1] == rows.last());
    }
}

proof fn lemma_row_at_is(rows: Seq<RowView>, i: int)
    requires
        one_row_each(rows),
        0 <= i < rows.len(),
    ensures
        row_at(rows, rows[i].original_event_id) == Some(i),
{
    lemma_row_at(rows, rows[i].original_event_id);
}

proof fn lemma_upserted(rows: Seq<RowView>, row: RowView)
    requires
        one_row_each(rows),
    ensures
        one_row_each(upserted(rows, row)),
        row_at(upserted(rows, row), row.original_event_id) == Some(
            match row_at(rows, row.original_event_id) {
                Some(i) => i,
                None => rows.len() as int,
            },
        ),
        forall|event_id: Seq<char>|
            event_id != row.original_event_id ==> #[trigger] row_at(upserted(rows, row), event_id)
                == row_at(rows, event_id),
{
    let out = upserted(rows, row);
    let key = row.original_event_id;
    lemma_row_at(rows, key);
    assert(one_row_each(out)) by {
        assert forall|i: int, j: int| 0 <= i < j < out.len() implies (
        #[trigger] out[i]).original_event_id != (#[trigger] out[j]).original_event_id by {
            if j < rows.len() {
                assert(rows[i].original_event_id != rows[j].original_event_id);
            }
        }
    }
    match row_at(rows, key) {
        Some(i) => lemma_row_at_is(out, i),
        None => lemma_row_at_is(out, rows.len() as int),
    }
    assert forall|event_id: Seq<char>| event_id != key implies #[trigger] row_at(out, event_id)
        == row_at(rows, event_id) by {
        lemma_row_at(rows, event_id);
        lemma_row_at(out, event_id);
        match row_at(rows, event_id) {
            Some(j) => {
                assert(out[j].original_event_id == event_id);
                lemma_row_at_is(out, j);
            },
            None => {
                if let Some(j) = row_at(out, event_id) {
                    assert(j < rows.len() && rows[j].original_event_id == event_id);
                }
            },
        }
    }
}

/// The rows of `sub` are among those of `rows`.
spec fn among(sub: Seq<RowView>, rows: Seq<RowView>) -> bool {
    forall|i: int| 0 <= i < sub.len() ==> rows.contains(#[trigger] sub[i])
}

proof fn lemma_unexpired(rows: Seq<RowView>, cutoff: int)
    requires
        one_row_each(rows),
    ensures
        one_row_each(unexpired(rows, cutoff)),
        unexpired(rows, cutoff).len() <= rows.len(),
        forall|i: int|
            0 <= i < unexpired(rows, cutoff).len() ==> (#[trigger] unexpired(
                rows,
                cutoff,
            )[i]).created_at >= cutoff,
        among(unexpired(rows, cutoff), rows),
        forall|i: int|
            0 <= i < rows.len() && (#[trigger] rows[i]).created_at >= cutoff ==> unexpired(
                rows,
                cutoff,
            ).contains(rows[i]),
    decreases rows.len(),
{
    if rows.len() > 0 {
        let head = rows.drop_last();
        let kept = unexpired(head, cutoff);
        let out = unexpired(rows, cutoff);
        assert(forall|i: int| 0 <= i < head.len() ==> head[i] == #[trigger] rows[i]);
        assert(one_row_each(head)) by {
            assert forall|i: int, j: int| 0 <= i < j < head.len() implies (
            #[trigger] head[i]).original_event_id != (#[trigger] head[j]).original_event_id by {
                assert(rows[i].original_event_id != rows[j].original_event_id);
            }
        }
        lemma_unexpired(head, cutoff);
        assert(among(out, rows)) by {
            assert forall|i: int| 0 <= i < out.len() implies rows.contains(#[trigger] out[i]) by {
                if i < kept.len() {
                    assert(out[i] == kept[i]);
                    let j = choose|j: int| 0 <= j < head.len() && head[j] == kept[i];
                    assert(rows[j] == out[i]);
                } else {
                    assert(rows[rows.len() - 1] == out[i]);
                }
            }
        }
        assert(one_row_each(out)) by {
            assert forall|i: int, j: int| 0 <= i < j < out.len() implies (
            #[trigger] out[i]).original_event_id != (#[trigger] out[j]).original_event_id by {
                assert(out[i] == kept[i]);
                if j < kept.len() {
                    assert(out[j] == kept[j]);
                } else {
                    assert(head.contains(kept[i]));
                    let k = choose|k: int| 0 <= k < head.len() && head[k] == kept[i];
                    assert(rows[k].original_event_id != rows[rows.len()
                        - 1].original_event_id);
                }
            }
        }
        assert forall|i: int| 0 <= i < out.len() implies (#[trigger] out[i]).created_at >= cutoff by {
            if i < kept.len() {
                assert(out[i] == kept[i]);
            }
        }
        assert forall|i: int|
            0 <= i < rows.len() && (#[trigger] rows[i]).created_at >= cutoff implies out.contains(
            rows[i],
        ) by {
            if i < head.len() {
                assert(head[i] == rows[i]);
                let k = choose|k: int| 0 <= k < kept.len() && kept[k] == rows[i];
                assert(out[k] == rows[i]);
            } else {
                assert(out[out.len() - 1] == rows[i]);
            }
        }
    }
}

proof fn lemma_remove_row(rows: Seq<RowView>, i: int)
    requires
        one_row_each(rows),
        0 <= i < rows.len(),
    ensures
        one_row_each(rows.remove(i)),
        among(rows.remove(i), rows),
        looked_up(rows.remove(i), rows[i].original_event_id) is None,
        forall|event_id: Seq<char>|
            event_id != rows[i].original_event_id ==> #[trigger] looked_up(rows.remove(i), event_id)
                == looked_up(rows, event_id),
{
    let out = rows.remove(i);
    let key = rows[i].original_event_id;
    assert(forall|k: int|
        0 <= k < out.len() ==> #[trigger] out[k] == rows[if k < i {
            k
        } else {
            k + 1
        }]);
    assert forall|k: int, l: int| 0 <= k < l < out.len() implies (
    #[trigger] out[k]).original_event_id != (#[trigger] out[l]).original_event_id by {
        let a = if k < i {
            k
        } else {
            k + 1
        };
        let b = if l < i {
            l
        } else {
            l + 1
        };
        assert(rows[a].original_event_id != rows[b].original_event_id);
    }
    assert forall|k: int| 0 <= k < out.len() implies rows.contains(#[trigger] out[k]) by {
        let a = if k < i {
            k
        } else {
            k + 1
        };
        assert(rows[a] == out[k]);
    }
    lemma_row_at(out, key);
    if let Some(k) = row_at(out, key) {
        let a = if k < i {
            k
        } else {
            k + 1
        };
        assert(rows[a].original_event_id == key);
        lemma_row_at_is(rows, a);
        lemma_row_at_is(rows, i);
    }
    assert forall|event_id: Seq<char>| event_id != key implies #[trigger] looked_up(out, event_id)
        == looked_up(rows, event_id) by {
        lemma_row_at(out, event_id);
        lemma_row_at(rows, event_id);
        match row_at(rows, event_id) {
            Some(j) => {
                let k = if j < i {
                    j
                } else {
                    j - 1
                };
                assert(out[k] == rows[j]);
                lemma_row_at_is(out, k);
            },
            None => {
                if let Some(k) = row_at(out, event_id) {
                    let a = if k < i {
                        k
                    } else {
                        k + 1
                    };
                    assert(rows[a].original_event_id == event_id);
                }
            },
        }
    }
}

proof fn lemma_capped(rows: Seq<RowView>)
    requires
        one_row_each(rows),
    ensures
        one_row_each(capped(rows)),
        capped(rows).len() <= TRANSLATIONS_ROW_CAP,
        among(capped(rows), rows),
    decreases rows.len(),
{
    if rows.len() > TRANSLATIONS_ROW_CAP {
        let i = oldest(rows);
        lemma_oldest(rows);
        lemma_remove_row(rows, i);
        let fewer = rows.remove(i);
        lemma_capped(fewer);
        let out = capped(rows);
        assert forall|k: int| 0 <= k < out.len() implies rows.contains(#[trigger] out[k]) by {
            assert(fewer.contains(out[k]));
            let l = choose|l: int| 0 <= l < fewer.len() && fewer[l] == out[k];
            assert(rows.contains(fewer[l]));
        }
    } else {
        let out = capped(rows);
        assert forall|k: int| 0 <= k < out.len() implies rows.contains(#[trigger] out[k]) by {
            assert(rows[k] == out[k]);
        }
    }
}

proof fn lemma_unexpired_len(rows: Seq<RowView>, cutoff: int)
    ensures
        unexpired(rows, cutoff).len() <= rows.len(),
        unexpired(rows, cutoff).len() == rows.len() ==> unexpired(rows, cutoff) == rows,
    decreases rows.len(),
{
    if rows.len() > 0 {
        lemma_unexpired_len(rows.drop_last(), cutoff);
        if unexpired(rows, cutoff).len() == rows.len() {
            assert(rows.drop_last().push(rows.last()) =~= rows);
        }
    } else {
        assert(unexpired(rows, cutoff) =~= rows);
    }
}

// ── Laws of the translations ────────────────────────────────────────────────
/// What was recorded is found again: after a translation is recorded, looking
/// its event up gives that translation. Left out are the two cases in which the
/// row leaves at once: the event had a row from before the age limit, or the
/// table is full and every other row is newer than the clock.
pub proof fn law_recorded_translation_is_found(rows: Seq<RowView>, row: RowView)
    requires
        one_row_each(rows),
        rows.len() <= TRANSLATIONS_ROW_CAP,
        row_at(rows, row.original_event_id) matches Some(i) ==> rows[i].created_at
            >= row.created_at - TRANSLATIONS_MAX_AGE_SECS,
        row_at(rows, row.original_event_id) is None ==> (rows.len() < TRANSLATIONS_ROW_CAP
            || exists|i: int|
            0 <= i < rows.len() && (#[trigger] rows[i]).created_at <= row.created_at),
    ensures
        looked_up(recorded(rows, row), row.original_event_id) == Some(row.bot_event_id),
{
    let cutoff = row.created_at - TRANSLATIONS_MAX_AGE_SECS;
    let key = row.original_event_id;
    let up = upserted(rows, row);
    let kept = unexpired(up, cutoff);
    lemma_row_at(rows, key);
    lemma_upserted(rows, row);
    lemma_unexpired(up, cutoff);
    let at = row_at(up, key)->0;
    let mine = up[at];
    assert(mine.bot_event_id == row.bot_event_id && mine.original_event_id == key);
    assert(mine.created_at >= cutoff);
    assert(kept.contains(mine));
    let k = choose|k: int| 0 <= k < kept.len() && kept[k] == mine;
    lemma_row_at_is(kept, k);
    if kept.len() > TRANSLATIONS_ROW_CAP {
        assert(up.len() == rows.len() + 1);
        assert(at == rows.len());
        lemma_unexpired_len(up, cutoff);
        assert(kept == up);
        let i = choose|i: int|
            0 <= i < rows.len() && (#[trigger] rows[i]).created_at <= row.created_at;
        assert(up[i] == rows[i]);
        let gone = oldest(up);
        lemma_oldest(up);
        assert(gone != at);
        lemma_remove_row(up, gone);
        assert(up[gone].original_event_id != key);
        let fewer = up.remove(gone);
        assert(capped(fewer) == fewer);
        assert(capped(kept) == fewer);
    } else {
        assert(capped(kept) == kept);
    }
}

/// Recording leaves the translations of other events alone, but for those that
/// are older than the age limit and, in a full table, the oldest ones.
pub proof fn law_recording_leaves_other_events(
    rows: Seq<RowView>,
    row: RowView,
    event_id: Seq<char>,
)
    requires
        one_row_each(rows),
        event_id != row.original_event_id,
    ensures
        looked_up(recorded(rows, row), event_id) is None || looked_up(recorded(rows, row), event_id)
            == looked_up(rows, event_id),
        rows.len() < TRANSLATIONS_ROW_CAP && (row_at(rows, event_id) matches Some(i)
            && rows[i].created_at >= row.created_at - TRANSLATIONS_MAX_AGE_SECS) ==> looked_up(
            recorded(rows, row),
            event_id,
        ) == looked_up(rows, event_id),
{
    let cutoff = row.created_at - TRANSLATIONS_MAX_AGE_SECS;
    let up = upserted(rows, row);
    let kept = unexpired(up, cutoff);
    let out = recorded(rows, row);
    lemma_upserted(rows, row);
    lemma_unexpired(up, cutoff);
    lemma_capped(kept);
    lemma_row_at(rows, row.original_event_id);
    lemma_row_at(rows, event_id);
    lemma_row_at(up, event_id);
    lemma_row_at(out, event_id);
    assert(row_at(up, event_id) == row_at(rows, event_id));
    if let Some(k) = row_at(out, event_id) {
        assert(kept.contains(out[k]));
        let l = choose|l: int| 0 <= l < kept.len() && kept[l] == out[k];
        assert(up.contains(kept[l]));
        let j = choose|j: int| 0 <= j < up.len() && up[j] == kept[l];
        lemma_row_at_is(up, j);
        assert(up[j] == rows[j]);
    }
    if let Some(i) = row_at(rows, event_id) {
        if rows.len() < TRANSLATIONS_ROW_CAP && rows[i].created_at >= cutoff {
            assert(up[i] == rows[i]);
            assert(kept.contains(up[i]));
            let k = choose|k: int| 0 <= k < kept.len() && kept[k] == up[i];
            lemma_row_at_is(kept, k);
            lemma_unexpired_len(up, cutoff);
        }
    }
}

/// After recording, the table holds one row per event, no more rows than the
/// cap, and none from before the age limit.
pub proof fn law_translations_are_bounded(rows: Seq<RowView>, row: RowView)
    requires
        one_row_each(rows),
    ensures
        one_row_each(recorded(rows, row)),
        recorded(rows, row).len() <= TRANSLATIONS_ROW_CAP,
        forall|i: int|
            0 <= i < recorded(rows, row).len() ==> (#[trigger] recorded(rows, row)[i]).created_at
                >= row.created_at - TRANSLATIONS_MAX_AGE_SECS,
{
    let cutoff = row.created_at - TRANSLATIONS_MAX_AGE_SECS;
    let up = upserted(rows, row);
    let kept = unexpired(up, cutoff);
    let out = recorded(rows, row);
    lemma_upserted(rows, row);
    lemma_unexpired(up, cutoff);
    lemma_capped(kept);
    assert forall|i: int| 0 <= i < out.len() implies (#[trigger] out[i]).created_at >= cutoff by {
        assert(kept.contains(out[i]));
        let l = choose|l: int| 0 <= l < kept.len() && kept[l] == out[i];
        assert(kept[l].created_at >= cutoff);
    }
}

/// Recording an event again keeps its row, its room and its age, and changes
/// the translation only.
pub proof fn law_recording_again_updates_in_place(rows: Seq<RowView>, row: RowView)
    requires
        one_row_each(rows),
        row_at(rows, row.original_event_id) is Some,
    ensures
        ({
            let i = row_at(rows, row.original_event_id)->0;
            let up = upserted(rows, row);
            &&& up.len() == rows.len()
            &&& up[i].bot_event_id == row.bot_event_id
            &&& up[i].room_id == rows[i].room_id
            &&& up[i].created_at == rows[i].created_at
            &&& forall|j: int| 0 <= j < rows.len() && j != i ==> #[trigger] up[j] == rows[j]
        }),
{
    lemma_row_at(rows, row.original_event_id);
}

/// A removed translation is no longer found, and no other is touched; removing
/// it once more changes nothing.
pub proof fn law_removed_translation_is_gone(
    rows: Seq<RowView>,
    event_id: Seq<char>,
    other: Seq<char>,
)
    requires
        one_row_each(rows),
    ensures
        one_row_each(removed(rows, event_id)),
        looked_up(removed(rows, event_id), event_id) is None,
        other != event_id ==> looked_up(removed(rows, event_id), other) == looked_up(rows, other),
        removed(removed(rows, event_id), event_id) == removed(rows, event_id),
{
    lemma_row_at(rows, event_id);
    if let Some(i) = row_at(rows, event_id) {
        lemma_remove_row(rows, i);
        assert(other != event_id ==> looked_up(rows.remove(i), other) == looked_up(rows, other));
        assert(looked_up(rows.remove(i), event_id) is None);
    }
}

/// How the store answers a lookup, or why it could not.
pub type Lookup = Result<Option<String>, String>;

pub open spec fn lookup_view(l: Lookup) -> Result<Option<Seq<char>>, Seq<char>> {
    match l {
        Ok(found) => Ok(opt_text(found)),
        Err(problem) => Err(problem@),
    }
}

// ── Outcomes ────────────────────────────────────────────────────────────────
pub open spec fn outcome_rows(v: Seq<DbEventOutcome>) -> Seq<DbEventOutcomeView> {
    Seq::new(v.len(), |i: int| v[i]@)
}

/// How many of `held` outcomes are beyond the retention.
pub open spec fn excess_outcomes(held: nat) -> int {
    if held > EVENT_OUTCOMES_RETENTION {
        held - EVENT_OUTCOMES_RETENTION
    } else {
        0
    }
}

/// How many of `held` outcomes are beyond the retention.
pub fn outcomes_beyond_retention(held: usize) -> (n: usize)
    ensures
        n == excess_outcomes(held as nat),
{
    if held > EVENT_OUTCOMES_RETENTION {
        held - EVENT_OUTCOMES_RETENTION
    } else {
        0
    }
}

/// `rows` with `row` as the newest, without the oldest beyond the retention.
pub open spec fn outcome_added(rows: Seq<DbEventOutcomeView>, row: DbEventOutcomeView) -> Seq<
    DbEventOutcomeView,
> {
    rows.push(row).skip(excess_outcomes(rows.len() + 1))
}

/// The newest outcome of `event_id`.
pub open spec fn newest_outcome(rows: Seq<DbEventOutcomeView>, event_id: Seq<char>) -> Option<
    DbEventOutcomeView,
>
    decreases rows.len(),
{
    if rows.len() == 0 {
        None
    } else if rows.last().event_id == event_id {
        Some(rows.last())
    } else {
        newest_outcome(rows.drop_last(), event_id)
    }
}

/// The outcome that came last is the one found for its event, the history is
/// bounded, and the outcome found for any other event does not change unless it
/// leaves the history.
pub proof fn law_newest_outcome_is_found(
    rows: Seq<DbEventOutcomeView>,
    row: DbEventOutcomeView,
    other: Seq<char>,
)
    requires
        other != row.event_id,
    ensures
        newest_outcome(outcome_added(rows, row), row.event_id) == Some(row),
        outcome_added(rows, row).len() <= EVENT_OUTCOMES_RETENTION,
        rows.len() < EVENT_OUTCOMES_RETENTION ==> newest_outcome(outcome_added(rows, row), other)
            == newest_outcome(rows, other),
        newest_outcome(outcome_added(rows, row), other) is None || newest_outcome(
            outcome_added(rows, row),
            other,
        ) == newest_outcome(rows, other),
{
    let all = rows.push(row);
    let n = excess_outcomes(rows.len() + 1);
    let out = outcome_added(rows, row);
    assert(out.last() == row);
    assert(out.drop_last() =~= rows.skip(n));
    if n == 0 {
        assert(rows.skip(0) =~= rows);
    }
    lemma_newest_in_suffix(rows, n, other);
}

proof fn lemma_newest_in_suffix(rows: Seq<DbEventOutcomeView>, n: int, event_id: Seq<char>)
    requires
        0 <= n <= rows.len(),
    ensures
        newest_outcome(rows.skip(n), event_id) is None || newest_outcome(rows.skip(n), event_id)
            == newest_outcome(rows, event_id),
    decreases rows.len(),
{
    if n < rows.len() {
        assert(rows.skip(n).last() == rows.last());
        assert(rows.skip(n).drop_last() =~= rows.drop_last().skip(n));
        lemma_newest_in_suffix(rows.drop_last(), n, event_id);
    }
}

// ── The store ───────────────────────────────────────────────────────────────
/// The rows of both tables, oldest first.
pub struct Db {
    translations: Vec<TranslationRow>,
    outcomes: VecDeque<DbEventOutcome>,
}

pub struct DbView {
    pub translations: Seq<RowView>,
    pub outcomes: Seq<DbEventOutcomeView>,
}

impl View for Db {
    type V = DbView;

    closed spec fn view(&self) -> DbView {
        DbView {
            translations: row_views(self.translations@),
            outcomes: outcome_rows(self.outcomes@),
        }
    }
}

impl DbView {
    /// One translation per event.
    pub open spec fn wf(self) -> bool {
        one_row_each(self.translations)
    }
}

impl Db {
    /// A store that holds nothing.
    pub fn open_in_memory() -> (r: Self)
        ensures
            r@.wf(),
            r@ == (DbView { translations: seq![], outcomes: seq![] }),
    {
        let r = Db { translations: Vec::new(), outcomes: VecDeque::new() };
        assert(r@.translations =~= seq![]);
        assert(r@.outcomes =~= seq![]);
        r
    }

    /// A store with the given rows, oldest first; `None` where an event has two
    /// translations.
    pub fn from_rows(translations: Vec<TranslationRow>, outcomes: Vec<DbEventOutcome>) -> (r: Option<
        Self,
    >)
        ensures
            r is Some <==> one_row_each(row_views(translations@)),
            r matches Some(db) ==> db@.wf() && db@ == (DbView {
                translations: row_views(translations@),
                outcomes: outcome_rows(outcomes@),
            }),
    {
        let ghost rows = row_views(translations@);
        let mut known: StringHashMap<usize> = StringHashMap::new();
        let mut i: usize = 0;
        while i < translations.len()
            invariant
                i <= translations@.len(),
                rows == row_views(translations@),
                forall|key: Seq<char>| #[trigger]
                    known@.contains_key(key) <==> exists|a: int|
                        0 <= a < i && (#[trigger] rows[a]).original_event_id == key,
                forall|a: int, b: int|
                    0 <= a < b < i ==> (#[trigger] rows[a]).original_event_id != (
                    #[trigger] rows[b]).original_event_id,
            decreases translations@.len() - i,
        {
            let ghost before = known@;
            let key: String = translations[i].original_event_id.clone();
            assert(rows[i as int].original_event_id == key@);
            if known.contains_key(key.as_str()) {
                let ghost a = choose|a: int|
                    0 <= a < i && (#[trigger] rows[a]).original_event_id == key@;
                assert(rows[a].original_event_id == rows[i as int].original_event_id);
                return None;
            }
            known.insert(key, i);
            assert forall|k: Seq<char>| #[trigger]
                known@.contains_key(k) <==> exists|a: int|
                    0 <= a < i + 1 && (#[trigger] rows[a]).original_event_id == k by {
                if known@.contains_key(k) && k != key@ {
                    assert(before.contains_key(k));
                    let a = choose|a: int|
                        0 <= a < i && (#[trigger] rows[a]).original_event_id == k;
                    assert(0 <= a < i + 1 && rows[a].original_event_id == k);
                }
                if exists|a: int| 0 <= a < i + 1 && (#[trigger] rows[a]).original_event_id == k {
                    let a = choose|a: int|
                        0 <= a < i + 1 && (#[trigger] rows[a]).original_event_id == k;
                    if a < i {
                        assert(before.contains_key(k));
                    }
                }
            }
            i = i + 1;
        }
        let ghost given = outcomes@;
        let mut held: VecDeque<DbEventOutcome> = VecDeque::new();
        assert(outcome_rows(held@) =~= outcome_rows(given).take(0));
        for outcome in it: outcomes
            invariant
                it.seq() == given,
                outcome_rows(held@) == outcome_rows(given).take(it.index()),
        {
            let ghost before = outcome_rows(held@);
            let ghost n = it.index();
            held.push_back(outcome);
            assert(outcome_rows(held@) =~= before.push(outcome@));
            assert(outcome_rows(given).take(n + 1) =~= outcome_rows(given).take(n).push(
                outcome_rows(given)[n],
            ));
        }
        assert(outcome_rows(given).take(given.len() as int) =~= outcome_rows(given));
        Some(Db { translations, outcomes: held })
    }

    fn position(&self, original_event_id: &str) -> (r: Option<usize>)
        ensures
            match (r, row_at(self@.translations, original_event_id@)) {
                (Some(i), Some(j)) => i == j && 0 <= j < self@.translations.len(),
                (None, None) => true,
                _ => false,
            },
    {
        let key: String = original_event_id.to_owned();
        let ghost all = self@.translations;
        let mut i: usize = self.translations.len();
        assert(all.take(all.len() as int) =~= all);
        while i > 0
            invariant
                i <= self.translations@.len() == all.len(),
                all == self@.translations,
                key@ == original_event_id@,
                row_at(all, original_event_id@) == row_at(all.take(i as int), original_event_id@),
            decreases i,
        {
            assert(all.take(i as int).last() == all[i - 1]);
            assert(all.take(i as int).drop_last() =~= all.take(i - 1));
            assert(all[i - 1] == self.translations@[i - 1]@);
            if self.translations[i - 1].original_event_id == key {
                return Some(i - 1);
            }
            i = i - 1;
        }
        None
    }

    /// Records that `original_event_id` was translated into `bot_event_id`, or
    /// updates that, at the time `now`. Rows older than the age limit leave,
    /// then the oldest ones beyond the cap. Returns the events whose rows left.
    pub fn record_translation(
        &mut self,
        original_event_id: &str,
        bot_event_id: &str,
        room_id: &str,
        now: i64,
    ) -> (left: Vec<String>)
        requires
            old(self)@.wf(),
            now - TRANSLATIONS_MAX_AGE_SECS >= i64::MIN,
        ensures
            ({
                let row = RowView {
                    original_event_id: original_event_id@,
                    bot_event_id: bot_event_id@,
                    room_id: room_id@,
                    created_at: now,
                };
                &&& final(self)@.wf()
                &&& final(self)@ == (DbView {
                    translations: recorded(old(self)@.translations, row),
                    ..old(self)@
                })
                &&& texts(left@) == dropped(old(self)@.translations, row)
            }),
    {
        let ghost row = RowView {
            original_event_id: original_event_id@,
            bot_event_id: bot_event_id@,
            room_id: room_id@,
            created_at: now,
        };
        let ghost before = self@.translations;
        match self.position(original_event_id) {
            Some(i) => {
                let updated = TranslationRow {
                    original_event_id: self.translations[i].original_event_id.clone(),
                    bot_event_id: bot_event_id.to_owned(),
                    room_id: self.translations[i].room_id.clone(),
                    created_at: self.translations[i].created_at,
                };
                self.translations.set(i, updated);
            },
            None => {
                let added = TranslationRow {
                    original_event_id: original_event_id.to_owned(),
                    bot_event_id: bot_event_id.to_owned(),
                    room_id: room_id.to_owned(),
                    created_at: now,
                };
                self.translations.push(added);
            },
        }
        assert(self@.translations =~= upserted(before, row));
        let left = self.prune(now - TRANSLATIONS_MAX_AGE_SECS);
        proof {
            law_translations_are_bounded(before, row);
        }
        left
    }

    /// Drops the rows from before `cutoff`, then the oldest ones beyond the
    /// cap, and returns their events.
    fn prune(&mut self, cutoff: i64) -> (left: Vec<String>)
        ensures
            final(self)@ == (DbView {
                translations: capped(unexpired(old(self)@.translations, cutoff as int)),
                ..old(self)@
            }),
            texts(left@) == expired(old(self)@.translations, cutoff as int) + evicted(
                unexpired(old(self)@.translations, cutoff as int),
            ),
    {
        let ghost all = self@.translations;
        let mut rows: Vec<TranslationRow> = Vec::new();
        std::mem::swap(&mut rows, &mut self.translations);
        let ghost given = rows@;
        assert(row_views(given) == all);
        let mut kept: Vec<TranslationRow> = Vec::new();
        let mut left: Vec<String> = Vec::new();
        assert(row_views(kept@) =~= unexpired(all.take(0), cutoff as int));
        assert(texts(left@) =~= expired(all.take(0), cutoff as int));
        for row in it: rows
            invariant
                it.seq() == given,
                all == row_views(given),
                row_views(kept@) == unexpired(all.take(it.index()), cutoff as int),
                texts(left@) == expired(all.take(it.index()), cutoff as int),
        {
            let ghost n = it.index();
            let ghost kept_before = row_views(kept@);
            let ghost left_before = texts(left@);
            assert(all.take(n + 1).drop_last() =~= all.take(n));
            assert(all.take(n + 1).last() == row@);
            if row.created_at >= cutoff {
                kept.push(row);
                assert(row_views(kept@) =~= kept_before.push(row@));
            } else {
                left.push(row.original_event_id);
                assert(texts(left@) =~= left_before.push(row@.original_event_id));
            }
        }
        assert(all.take(all.len() as int) =~= all);
        let ghost aged = unexpired(all, cutoff as int);
        let ghost first_left = texts(left@);
        assert(first_left + evicted(aged) =~= texts(left@) + evicted(row_views(kept@)));
        while kept.len() > TRANSLATIONS_ROW_CAP
            invariant
                capped(row_views(kept@)) == capped(aged),
                texts(left@) + evicted(row_views(kept@)) == first_left + evicted(aged),
            decreases kept@.len(),
        {
            let ghost held = row_views(kept@);
            let ghost left_before = texts(left@);
            let i = oldest_of(&kept);
            proof {
                lemma_oldest(held);
            }
            let gone = kept.remove(i);
            assert(row_views(kept@) =~= held.remove(i as int));
            left.push(gone.original_event_id);
            assert(texts(left@) =~= left_before.push(held[i as int].original_event_id));
            assert(left_before + evicted(held) =~= texts(left@) + evicted(row_views(kept@)));
        }
        assert(evicted(row_views(kept@)) =~= seq![]);
        assert(texts(left@) =~= texts(left@) + evicted(row_views(kept@)));
        self.translations = kept;
        left
    }

    /// The bot's translation of `original_event_id`, if there is one.
    pub fn lookup_translation(&self, original_event_id: &str) -> (r: Option<String>)
        ensures
            opt_text(r) == looked_up(self@.translations, original_event_id@),
    {
        match self.position(original_event_id) {
            Some(i) => Some(self.translations[i].bot_event_id.clone()),
            None => None,
        }
    }

    /// Removes the translation of `original_event_id`.
    pub fn remove_translation(&mut self, original_event_id: &str)
        requires
            old(self)@.wf(),
        ensures
            final(self)@.wf(),
            final(self)@ == (DbView {
                translations: removed(old(self)@.translations, original_event_id@),
                ..old(self)@
            }),
    {
        let ghost before = self@.translations;
        if let Some(i) = self.position(original_event_id) {
            let gone = self.translations.remove(i);
            assert(self@.translations =~= before.remove(i as int));
            proof {
                lemma_remove_row(before, i as int);
            }
        }
    }

    /// Adds an outcome as the newest one; the oldest ones beyond the retention
    /// leave. Returns how many left.
    pub fn push_outcome(&mut self, outcome: DbEventOutcome) -> (left: usize)
        requires
            old(self)@.wf(),
            old(self)@.outcomes.len() < usize::MAX,
        ensures
            final(self)@.wf(),
            final(self)@ == (DbView {
                outcomes: outcome_added(old(self)@.outcomes, outcome@),
                ..old(self)@
            }),
            left == excess_outcomes(old(self)@.outcomes.len() + 1),
    {
        let ghost all = self@.outcomes.push(outcome@);
        self.outcomes.push_back(outcome);
        assert(self@.outcomes =~= all);
        let left: usize = outcomes_beyond_retention(self.outcomes.len());
        let mut i: usize = 0;
        assert(all.skip(0) =~= all);
        while i < left
            invariant
                i <= left <= all.len(),
                self@.translations == old(self)@.translations,
                self@.outcomes == all.skip(i as int),
            decreases left - i,
        {
            let ghost held = self.outcomes@;
            assert(self@.outcomes.len() == held.len());
            let oldest_row = self.outcomes.pop_front();
            assert(self.outcomes@ =~= held.skip(1));
            assert(self@.outcomes =~= outcome_rows(held).skip(1));
            assert(all.skip(i as int).skip(1) =~= all.skip(i + 1));
            i = i + 1;
        }
        left
    }

    /// The newest outcome of `event_id`, if there is one.
    pub fn find_outcome(&self, event_id: &str) -> (r: Option<DbEventOutcome>)
        ensures
            opt_row(r) == newest_outcome(self@.outcomes, event_id@),
    {
        let key: String = event_id.to_owned();
        let ghost all = self@.outcomes;
        let mut i: usize = self.outcomes.len();
        assert(all.take(all.len() as int) =~= all);
        while i > 0
            invariant
                i <= self.outcomes@.len() == all.len(),
                all == self@.outcomes,
                key@ == event_id@,
                newest_outcome(all, event_id@) == newest_outcome(all.take(i as int), event_id@),
            decreases i,
        {
            let o = &self.outcomes[i - 1];
            assert(o@ == all[i - 1]);
            assert(all.take(i as int).last() == all[i - 1]);
            assert(all.take(i as int).drop_last() =~= all.take(i - 1));
            if o.event_id == key {
                return Some(o.copy());
            }
            i = i - 1;
        }
        None
    }
}

fn oldest_of(rows: &Vec<TranslationRow>) -> (i: usize)
    requires
        rows@.len() > 0,
    ensures
        i == oldest(row_views(rows@)),
        i < rows@.len(),
{
    let ghost all = row_views(rows@);
    let mut best: usize = 0;
    let mut i: usize = 1;
    while i < rows.len()
        invariant
            1 <= i <= rows@.len(),
            best < i,
            all == row_views(rows@),
            best == oldest(all.take(i as int)),
        decreases rows@.len() - i,
    {
        assert(all.take(i + 1).drop_last() =~= all.take(i as int));
        assert(all.take(i + 1).last() == all[i as int]);
        assert(all.take(i + 1)[best as int] == all[best as int]);
        if rows[i].created_at < rows[best].created_at {
            best = i;
        }
        i = i + 1;
    }
    assert(all.take(i as int) =~= all);
    best
}

// ── What the rows say ───────────────────────────────────────────────────────
/// The translation of an event is the one that the event's row names, and an
/// event without a row has none.
pub proof fn law_lookup(rows: Seq<RowView>, event_id: Seq<char>)
    requires
        one_row_each(rows),
    ensures
        forall|i: int|
            0 <= i < rows.len() && (#[trigger] rows[i]).original_event_id == event_id ==> looked_up(
                rows,
                event_id,
            ) == Some(rows[i].bot_event_id),
        looked_up(rows, event_id) is None <==> forall|i: int|
            0 <= i < rows.len() ==> (#[trigger] rows[i]).original_event_id != event_id,
{
    lemma_row_at(rows, event_id);
}

proof fn lemma_unexpired_is(rows: Seq<RowView>, cutoff: int)
    ensures
        unexpired(rows, cutoff) == rows.filter(|r: RowView| r.created_at >= cutoff),
        expired(rows, cutoff) == rows.filter(|r: RowView| r.created_at < cutoff).map_values(
            |r: RowView| r.original_event_id,
        ),
    decreases rows.len(),
{
    reveal(Seq::filter);
    let old_rows = rows.filter(|r: RowView| r.created_at < cutoff);
    if rows.len() > 0 {
        let head = rows.drop_last();
        lemma_unexpired_is(head, cutoff);
        let old_head = head.filter(|r: RowView| r.created_at < cutoff);
        if rows.last().created_at < cutoff {
            assert(old_rows == old_head.push(rows.last()));
            assert(old_rows.map_values(|r: RowView| r.original_event_id) =~= old_head.map_values(
                |r: RowView| r.original_event_id,
            ).push(rows.last().original_event_id));
        }
    } else {
        assert(old_rows.map_values(|r: RowView| r.original_event_id) =~= seq![]);
    }
}

/// While the cap is not reached, recording keeps exactly the rows of the last
/// 180 days, in order, with a new row behind them; and it tells exactly the
/// events of the older ones.
pub proof fn law_old_rows_leave(rows: Seq<RowView>, row: RowView)
    requires
        forall|i: int|
            0 <= i < rows.len() ==> (#[trigger] rows[i]).original_event_id != row.original_event_id,
        rows.push(row).filter(|r: RowView| r.created_at >= row.created_at - 15_552_000).len()
            <= 100_000,
    ensures
        recorded(rows, row) == rows.push(row).filter(
            |r: RowView| r.created_at >= row.created_at - 15_552_000,
        ),
        dropped(rows, row) == rows.push(row).filter(
            |r: RowView| r.created_at < row.created_at - 15_552_000,
        ).map_values(|r: RowView| r.original_event_id),
{
    lemma_row_at(rows, row.original_event_id);
    let cutoff = row.created_at - 15_552_000;
    lemma_unexpired_is(rows.push(row), cutoff);
    assert(dropped(rows, row) =~= expired(rows.push(row), cutoff));
}

/// A translation of an event that has one already takes its place and keeps its
/// age, which decides alone whether the row stays.
pub proof fn law_known_event_keeps_its_age(rows: Seq<RowView>, row: RowView, i: int)
    requires
        one_row_each(rows),
        0 <= i < rows.len() <= 100_000,
        rows[i].original_event_id == row.original_event_id,
    ensures
        ({
            let renamed = rows.update(
                i,
                RowView {
                    original_event_id: row.original_event_id,
                    bot_event_id: row.bot_event_id,
                    room_id: rows[i].room_id,
                    created_at: rows[i].created_at,
                },
            );
            recorded(rows, row) == renamed.filter(
                |r: RowView| r.created_at >= row.created_at - 15_552_000,
            )
        }),
{
    lemma_row_at_is(rows, i);
    let cutoff = row.created_at - 15_552_000;
    let renamed = upserted(rows, row);
    assert(renamed == rows.update(i, RowView { bot_event_id: row.bot_event_id, ..rows[i] }));
    lemma_unexpired_is(renamed, cutoff);
    lemma_unexpired_len(renamed, cutoff);
}

/// A new row in a table that is full pushes out the oldest row, the first of
/// those of the same age, and no other.
pub proof fn law_oldest_row_makes_room(rows: Seq<RowView>, row: RowView, k: int)
    requires
        rows.len() == 100_000,
        0 <= k <= rows.len(),
        forall|i: int|
            0 <= i < rows.len() ==> (#[trigger] rows[i]).original_event_id != row.original_event_id
                && rows[i].created_at >= row.created_at - 15_552_000,
        forall|i: int|
            0 <= i <= rows.len() ==> rows.push(row)[k].created_at <= (#[trigger] rows.push(
                row,
            )[i]).created_at,
        forall|i: int|
            0 <= i < k ==> rows.push(row)[k].created_at < (#[trigger] rows.push(row)[i]).created_at,
    ensures
        recorded(rows, row) == rows.push(row).remove(k),
        dropped(rows, row) == seq![rows.push(row)[k].original_event_id],
{
    lemma_row_at(rows, row.original_event_id);
    let all = rows.push(row);
    let cutoff = row.created_at - 15_552_000;
    lemma_all_unexpired(all, cutoff);
    lemma_oldest(all);
    let o = oldest(all);
    assert(all[o].created_at <= all[k].created_at);
    assert(o == k);
    assert(all.remove(k).len() == 100_000);
    assert(capped(all) == capped(all.remove(k)) && capped(all.remove(k)) == all.remove(k));
    assert(evicted(all.remove(k)) =~= seq![]);
    assert(evicted(all) =~= seq![all[k].original_event_id]);
}

proof fn lemma_all_unexpired(rows: Seq<RowView>, cutoff: int)
    requires
        forall|i: int| 0 <= i < rows.len() ==> (#[trigger] rows[i]).created_at >= cutoff,
    ensures
        unexpired(rows, cutoff) == rows,
        expired(rows, cutoff) == Seq::<Seq<char>>::empty(),
    decreases rows.len(),
{
    if rows.len() > 0 {
        let head = rows.drop_last();
        assert(forall|i: int| 0 <= i < head.len() ==> head[i] == #[trigger] rows[i]);
        lemma_all_unexpired(head, cutoff);
        assert(rows[rows.len() - 1] == rows.last());
        assert(head.push(rows.last()) =~= rows);
    }
}

/// The cap takes the oldest rows: as many stay as it allows, each of them was
/// there, and none that left is younger than one that stayed.
pub proof fn law_cap_takes_the_oldest(rows: Seq<RowView>)
    ensures
        capped(rows).len() == if rows.len() <= 100_000 {
            rows.len()
        } else {
            100_000
        },
        forall|j: int|
            0 <= j < capped(rows).len() ==> rows.contains(#[trigger] capped(rows)[j]),
        forall|i: int, j: int|
            0 <= i < rows.len() && 0 <= j < capped(rows).len() && !capped(rows).contains(rows[i])
                ==> (#[trigger] rows[i]).created_at <= (#[trigger] capped(rows)[j]).created_at,
    decreases rows.len(),
{
    if rows.len() > 100_000 {
        lemma_oldest(rows);
        let o = oldest(rows);
        let rest = rows.remove(o);
        law_cap_takes_the_oldest(rest);
        let out = capped(rows);
        assert(out == capped(rest));
        assert forall|j: int| 0 <= j < out.len() implies rows.contains(#[trigger] out[j]) by {
            let k = choose|k: int| 0 <= k < rest.len() && rest[k] == out[j];
            if k < o {
                assert(rows[k] == out[j]);
            } else {
                assert(rows[k + 1] == out[j]);
            }
        }
        assert forall|i: int, j: int|
            0 <= i < rows.len() && 0 <= j < out.len() && !out.contains(rows[i]) implies (
        #[trigger] rows[i]).created_at <= (#[trigger] out[j]).created_at by {
            if i == o {
                assert(rows.contains(out[j]));
                let k = choose|k: int| 0 <= k < rows.len() && rows[k] == out[j];
                assert(rows[k].created_at >= rows[o].created_at);
            } else if i < o {
                assert(rest[i] == rows[i]);
            } else {
                assert(rest[i - 1] == rows[i]);
            }
        }
    }
}

/// Whether an event has a row.
pub open spec fn has_row(rows: Seq<RowView>, event_id: Seq<char>) -> bool {
    exists|i: int| 0 <= i < rows.len() && (#[trigger] rows[i]).original_event_id == event_id
}

proof fn lemma_expired_events(rows: Seq<RowView>, cutoff: int, event_id: Seq<char>)
    requires
        one_row_each(rows),
    ensures
        one_row_each(unexpired(rows, cutoff)),
        has_row(unexpired(rows, cutoff), event_id) ==> has_row(rows, event_id),
        expired(rows, cutoff).contains(event_id) <==> has_row(rows, event_id) && !has_row(
            unexpired(rows, cutoff),
            event_id,
        ),
    decreases rows.len(),
{
    if rows.len() > 0 {
        let head = rows.drop_last();
        let last = rows.last();
        assert(forall|i: int| 0 <= i < head.len() ==> head[i] == #[trigger] rows[i]);
        assert(rows[rows.len() - 1] == last);
        lemma_expired_events(head, cutoff, event_id);
        lemma_expired_events(head, cutoff, last.original_event_id);
        let (u, e) = (unexpired(head, cutoff), expired(head, cutoff));
        assert(!has_row(head, last.original_event_id));
        if last.created_at >= cutoff {
            let out = u.push(last);
            assert forall|i: int, j: int| 0 <= i < j < out.len() implies (
            #[trigger] out[i]).original_event_id != (#[trigger] out[j]).original_event_id by {
                assert(out[i] == u[i]);
                if j < u.len() {
                    assert(out[j] == u[j]);
                } else {
                    assert(!has_row(u, last.original_event_id));
                }
            }
            assert(out[u.len() as int] == last);
            assert(forall|i: int| 0 <= i < u.len() ==> out[i] == #[trigger] u[i]);
        } else {
            let out = e.push(last.original_event_id);
            assert(out[e.len() as int] == last.original_event_id);
            assert(forall|i: int| 0 <= i < e.len() ==> out[i] == #[trigger] e[i]);
            if e.contains(event_id) {
                assert(out.contains(event_id));
            }
            if out.contains(event_id) {
                let k = choose|k: int| 0 <= k < out.len() && out[k] == event_id;
                assert(k < e.len() ==> e[k] == event_id);
            }
        }
    } else {
        assert(expired(rows, cutoff) =~= seq![]);
    }
}

proof fn lemma_evicted_events(rows: Seq<RowView>, event_id: Seq<char>)
    requires
        one_row_each(rows),
    ensures
        has_row(capped(rows), event_id) ==> has_row(rows, event_id),
        evicted(rows).contains(event_id) <==> has_row(rows, event_id) && !has_row(
            capped(rows),
            event_id,
        ),
    decreases rows.len(),
{
    if rows.len() > TRANSLATIONS_ROW_CAP {
        lemma_oldest(rows);
        let o = oldest(rows);
        let rest = rows.remove(o);
        assert(forall|i: int| 0 <= i < o ==> rest[i] == #[trigger] rows[i]);
        assert(forall|i: int| o <= i < rest.len() ==> #[trigger] rest[i] == rows[i + 1]);
        assert(one_row_each(rest));
        lemma_evicted_events(rest, event_id);
        lemma_evicted_events(rest, rows[o].original_event_id);
        let first = rows[o].original_event_id;
        let more = evicted(rest);
        let out = evicted(rows);
        assert(out == seq![first] + more);
        assert(out[0] == first);
        assert(forall|i: int| 0 <= i < more.len() ==> #[trigger] more[i] == out[i + 1]);
        if out.contains(event_id) {
            let k = choose|k: int| 0 <= k < out.len() && out[k] == event_id;
            assert(k > 0 ==> more[k - 1] == event_id);
        }
        if more.contains(event_id) {
            let k = choose|k: int| 0 <= k < more.len() && more[k] == event_id;
            assert(out[k + 1] == event_id);
        }
        if has_row(rows, event_id) && event_id != first {
            let k = choose|k: int|
                0 <= k < rows.len() && (#[trigger] rows[k]).original_event_id == event_id;
            if k < o {
                assert(rest[k] == rows[k]);
            } else {
                assert(rest[k - 1] == rows[k]);
            }
        }
        if has_row(rest, event_id) {
            let k = choose|k: int|
                0 <= k < rest.len() && (#[trigger] rest[k]).original_event_id == event_id;
            if k < o {
                assert(rest[k] == rows[k]);
            } else {
                assert(rest[k] == rows[k + 1]);
            }
        }
        assert(!has_row(rest, first));
    } else {
        assert(evicted(rows) =~= seq![]);
    }
}

/// The events that are told to have left are exactly those that had a row, or
/// just got one, and have none any more.
pub proof fn law_dropped_events(rows: Seq<RowView>, row: RowView, event_id: Seq<char>)
    requires
        one_row_each(rows),
    ensures
        dropped(rows, row).contains(event_id) <==> (has_row(rows, event_id) || event_id
            == row.original_event_id) && !has_row(recorded(rows, row), event_id),
{
    lemma_upserted(rows, row);
    let all = upserted(rows, row);
    let cutoff = row.created_at - TRANSLATIONS_MAX_AGE_SECS;
    lemma_row_at(rows, event_id);
    lemma_row_at(all, event_id);
    lemma_row_at(all, row.original_event_id);
    lemma_expired_events(all, cutoff, event_id);
    let kept = unexpired(all, cutoff);
    lemma_evicted_events(kept, event_id);
    let (a, b) = (expired(all, cutoff), evicted(kept));
    let out = dropped(rows, row);
    assert(out == a + b);
    if out.contains(event_id) {
        let k = choose|k: int| 0 <= k < out.len() && out[k] == event_id;
        assert(k < a.len() ==> a[k] == event_id);
        assert(k >= a.len() ==> b[k - a.len()] == event_id);
    }
    if a.contains(event_id) {
        let k = choose|k: int| 0 <= k < a.len() && a[k] == event_id;
        assert(out[k] == event_id);
    }
    if b.contains(event_id) {
        let k = choose|k: int| 0 <= k < b.len() && b[k] == event_id;
        assert(out[k + a.len()] == event_id);
    }
}

/// Removing the translation of an event leaves exactly the rows of the others,
/// in order.
pub proof fn law_removal_keeps_the_others(rows: Seq<RowView>, event_id: Seq<char>)
    requires
        one_row_each(rows),
    ensures
        removed(rows, event_id) == rows.filter(|r: RowView| r.original_event_id != event_id),
    decreases rows.len(),
{
    reveal(Seq::filter);
    lemma_row_at(rows, event_id);
    if rows.len() > 0 {
        let head = rows.drop_last();
        assert(forall|i: int| 0 <= i < head.len() ==> head[i] == #[trigger] rows[i]);
        assert(rows[rows.len() - 1] == rows.last());
        assert(one_row_each(head));
        law_removal_keeps_the_others(head, event_id);
        lemma_row_at(head, event_id);
        if rows.last().original_event_id == event_id {
            assert(row_at(head, event_id) is None);
            assert(removed(rows, event_id) =~= head);
        } else {
            assert(removed(rows, event_id) =~= removed(head, event_id).push(rows.last()));
        }
    } else {
        assert(removed(rows, event_id) =~= rows.filter(
            |r: RowView| r.original_event_id != event_id,
        ));
    }
}

/// The history is the last five thousand outcomes, oldest first.
pub proof fn law_history(rows: Seq<DbEventOutcomeView>, row: DbEventOutcomeView)
    ensures
        rows.len() < 5_000 ==> outcome_added(rows, row) == rows.push(row),
        rows.len() >= 5_000 ==> outcome_added(rows, row) == rows.skip(rows.len() - 4_999).push(row),
{
    let all = rows.push(row);
    if rows.len() < 5_000 {
        assert(all.skip(0) =~= all);
    } else {
        assert(all.skip(rows.len() - 4_999) =~= rows.skip(rows.len() - 4_999).push(row));
    }
}

/// The outcome found for an event is its last one.
pub proof fn law_newest_outcome(rows: Seq<DbEventOutcomeView>, event_id: Seq<char>, i: int)
    requires
        0 <= i < rows.len(),
        rows[i].event_id == event_id,
        forall|j: int| i < j < rows.len() ==> (#[trigger] rows[j]).event_id != event_id,
    ensures
        newest_outcome(rows, event_id) == Some(rows[i]),
    decreases rows.len(),
{
    if i < rows.len() - 1 {
        let head = rows.drop_last();
        assert(forall|j: int| 0 <= j < head.len() ==> head[j] == #[trigger] rows[j]);
        assert(rows[rows.len() - 1] == rows.last());
        law_newest_outcome(head, event_id, i);
    }
}

/// An event without an outcome has none to be found.
pub proof fn law_unknown_outcome(rows: Seq<DbEventOutcomeView>, event_id: Seq<char>)
    requires
        forall|j: int| 0 <= j < rows.len() ==> (#[trigger] rows[j]).event_id != event_id,
    ensures
        newest_outcome(rows, event_id) is None,
    decreases rows.len(),
{
    if rows.len() > 0 {
        let head = rows.drop_last();
        assert(forall|j: int| 0 <= j < head.len() ==> head[j] == #[trigger] rows[j]);
        assert(rows[rows.len() - 1] == rows.last());
        law_unknown_outcome(head, event_id);
    }
}

/// The rows and lookups say what they hold.
pub proof fn law_store_views(row: TranslationRow, text: String)
    ensures
        row@.original_event_id == row.original_event_id@,
        row@.bot_event_id == row.bot_event_id@,
        row@.room_id == row.room_id@,
        row@.created_at == row.created_at,
        lookup_view(Ok(Some(text))) == Ok::<Option<Seq<char>>, Seq<char>>(Some(text@)),
        lookup_view(Ok(None)) == Ok::<Option<Seq<char>>, Seq<char>>(None),
        lookup_view(Err(text)) == Err::<Option<Seq<char>>, Seq<char>>(text@),
{
}

} // verus!

//! What is noted about an event once its fate is decided: the counters, the
//! history in memory and the row for the durable history.
use vstd::prelude::*;

use crate::batch::{
    failure_views, BatchFailureView, TargetFailureView, TargetTranslationFailure,
    TranslationBatchFailure,
};
use crate::compose::{decimal, decimal_text, join, joined};
use crate::interval::Interval;
use crate::outcome::{copy_opt, stored, DbEventOutcome, EventOutcome, EventOutcomeView};
use crate::skip::SkipReason;
use crate::stats::{counted, ring_push, wrapped_sum, Stats, StatsView};
use crate::text::{opt_text, texts};

verus! {

/// The event that an outcome is about, as the diagnostics describe it.
pub struct Subject {
    pub event_id: String,
    pub room_id: String,
    pub sender: Option<String>,
    pub msgtype: String,
    /// Which part of the event the text comes from.
    pub text_source: &'static str,
}

pub struct SubjectView {
    pub event_id: Seq<char>,
    pub room_id: Seq<char>,
    pub sender: Option<Seq<char>>,
    pub msgtype: Seq<char>,
    pub text_source: Seq<char>,
}

impl View for Subject {
    type V = SubjectView;

    open spec fn view(&self) -> SubjectView {
        SubjectView {
            event_id: self.event_id@,
            room_id: self.room_id@,
            sender: opt_text(self.sender),
            msgtype: self.msgtype@,
            text_source: self.text_source@,
        }
    }
}

// ── Skipped events ──────────────────────────────────────────────────────────
/// The outcome of an event that is skipped for `reason`.
pub open spec fn skip_outcome(
    subject: SubjectView,
    reason: SkipReason,
    at: Option<u64>,
) -> EventOutcomeView {
    EventOutcomeView {
        event_id: subject.event_id,
        room_id: subject.room_id,
        sender: subject.sender,
        msgtype: subject.msgtype,
        text_source: subject.text_source,
        decision: "skip"@,
        reason: Some(reason.label()),
        source_lang: None,
        targets: None,
        matrix_send: None,
        duration_ms: None,
        at,
    }
}

/// The statistics after `subject` was skipped for `reason`.
pub open spec fn skip_noted(
    stats: StatsView,
    subject: SubjectView,
    reason: SkipReason,
    at: Option<u64>,
) -> StatsView {
    stats.skip_counted(reason).outcome_pushed(skip_outcome(subject, reason, at))
}

/// Notes that `subject` is skipped for `reason`. The single place that decides
/// what a skip looks like. Returns the row for the durable history.
pub fn record_skip(
    stats: &mut Stats,
    subject: &Subject,
    reason: SkipReason,
    at: Option<u64>,
) -> (row: DbEventOutcome)
    requires
        old(stats)@.wf(),
    ensures
        final(stats)@.wf(),
        final(stats)@ == skip_noted(old(stats)@, subject@, reason, at),
        row@ == stored(skip_outcome(subject@, reason, at)),
{
    stats.record_skip(reason);
    stats.push_outcome(
        EventOutcome {
            event_id: subject.event_id.clone(),
            room_id: subject.room_id.clone(),
            sender: copy_opt(&subject.sender),
            msgtype: subject.msgtype.clone(),
            text_source: subject.text_source,
            decision: "skip",
            reason: Some(reason.as_str()),
            source_lang: None,
            targets: None,
            matrix_send: None,
            duration_ms: None,
            at,
        },
    )
}

// ── Translated events ───────────────────────────────────────────────────────
/// How the diagnostics name the outcome of sending a translation.
pub open spec fn send_label(ok: bool) -> Seq<char> {
    if ok {
        "ok"@
    } else {
        "failed"@
    }
}

/// The outcome of an event whose translation was made and then sent, or not.
pub open spec fn translated_outcome(
    subject: SubjectView,
    source_lang: Seq<char>,
    targets: Seq<Seq<char>>,
    send_ok: bool,
    duration: Interval,
    at: Option<u64>,
) -> EventOutcomeView {
    EventOutcomeView {
        event_id: subject.event_id,
        room_id: subject.room_id,
        sender: Some(
            match subject.sender {
                Some(sender) => sender,
                None => "-"@,
            },
        ),
        msgtype: subject.msgtype,
        text_source: subject.text_source,
        decision: "translate"@,
        reason: None,
        source_lang: Some(source_lang),
        targets: Some(joined(targets, ","@)),
        matrix_send: Some(send_label(send_ok)),
        duration_ms: Some((duration.nanos / 1_000_000) as u128),
        at,
    }
}

/// The statistics after a translation of `subject` was made and then sent, or
/// not.
pub open spec fn translation_noted(
    stats: StatsView,
    subject: SubjectView,
    source_lang: Seq<char>,
    targets: Seq<Seq<char>>,
    send_ok: bool,
    duration: Interval,
    at: Option<u64>,
) -> StatsView {
    let counted = StatsView {
        translated: wrapped_sum(stats.translated, 1),
        matrix_send_failures: if send_ok {
            stats.matrix_send_failures
        } else {
            wrapped_sum(stats.matrix_send_failures, 1)
        },
        ..stats
    };
    counted.outcome_pushed(
        translated_outcome(subject, source_lang, targets, send_ok, duration, at),
    )
}

/// Notes a completed translate-and-send attempt; `send_ok` tells a translation
/// that was delivered from one that was made and could not be sent. Returns the
/// row for the durable history.
pub fn record_translated(
    stats: &mut Stats,
    subject: &Subject,
    source_lang: &str,
    targets: &Vec<String>,
    send_ok: bool,
    duration: Interval,
    at: Option<u64>,
) -> (row: DbEventOutcome)
    requires
        old(stats)@.wf(),
    ensures
        final(stats)@.wf(),
        final(stats)@ == translation_noted(
            old(stats)@,
            subject@,
            source_lang@,
            texts(targets@),
            send_ok,
            duration,
            at,
        ),
        row@ == stored(
            translated_outcome(
                subject@,
                source_lang@,
                texts(targets@),
                send_ok,
                duration,
                at,
            ),
        ),
{
    stats.translated = stats.translated.wrapping_add(1);
    if !send_ok {
        stats.matrix_send_failures = stats.matrix_send_failures.wrapping_add(1);
    }
    let sender: String = match &subject.sender {
        Some(sender) => sender.clone(),
        None => "-".to_owned(),
    };
    stats.push_outcome(
        EventOutcome {
            event_id: subject.event_id.clone(),
            room_id: subject.room_id.clone(),
            sender: Some(sender),
            msgtype: subject.msgtype.clone(),
            text_source: subject.text_source,
            decision: "translate",
            reason: None,
            source_lang: Some(source_lang.to_owned()),
            targets: Some(join(targets, ",")),
            matrix_send: Some(
                if send_ok {
                    "ok"
                } else {
                    "failed"
                },
            ),
            duration_ms: Some(duration.as_millis()),
            at,
        },
    )
}

// ── Suppressed translations ─────────────────────────────────────────────────
/// The languages of the failed targets.
pub open spec fn failed_langs(failed: Seq<TargetFailureView>) -> Seq<Seq<char>> {
    Seq::new(failed.len(), |i: int| failed[i].target)
}

/// One failed target, as the log describes it.
pub open spec fn failure_text(failure: TargetFailureView) -> Seq<char> {
    failure.target + " attempts="@ + decimal(failure.attempts) + " class="@
        + failure.error.kind.label() + " detail="@ + failure.error.detail
}

/// The failed targets, as the log describes them.
pub open spec fn failure_texts(failed: Seq<TargetFailureView>) -> Seq<Seq<char>> {
    Seq::new(failed.len(), |i: int| failure_text(failed[i]))
}

/// The outcome of an event whose translation is suppressed.
pub open spec fn suppressed_outcome(
    failure: BatchFailureView,
    room_id: Seq<char>,
    event_id: Seq<char>,
    at: Option<u64>,
) -> EventOutcomeView {
    EventOutcomeView {
        event_id,
        room_id,
        sender: None,
        msgtype: failure.context,
        text_source: failure.context,
        decision: "error"@,
        reason: Some(SkipReason::TranslationSuppressed.label()),
        source_lang: Some(failure.source),
        targets: Some(joined(failed_langs(failure.failed_targets), ","@)),
        matrix_send: None,
        duration_ms: None,
        at,
    }
}

/// The statistics after the translation of an event was suppressed.
pub open spec fn suppression_noted(
    stats: StatsView,
    failure: BatchFailureView,
    room_id: Seq<char>,
    event_id: Seq<char>,
    at: Option<u64>,
) -> StatsView {
    let counted = StatsView {
        translation_api_failures: wrapped_sum(
            stats.translation_api_failures,
            failure.failed_targets.len() as u64,
        ),
        ..stats
    };
    counted.skip_counted(SkipReason::TranslationSuppressed).outcome_pushed(
        suppressed_outcome(failure, room_id, event_id, at),
    )
}

fn copy_langs(failed: &Vec<TargetTranslationFailure>) -> (langs: Vec<String>)
    ensures
        texts(langs@) == failed_langs(failure_views(failed@)),
{
    let ghost all = failed_langs(failure_views(failed@));
    let mut langs: Vec<String> = Vec::new();
    let mut i: usize = 0;
    assert(texts(langs@) =~= all.take(0));
    while i < failed.len()
        invariant
            i <= failed@.len(),
            all == failed_langs(failure_views(failed@)),
            texts(langs@) == all.take(i as int),
        decreases failed@.len() - i,
    {
        let ghost before = texts(langs@);
        langs.push(failed[i].target.clone());
        assert(texts(langs@) =~= before.push(all[i as int]));
        assert(all.take(i + 1) =~= all.take(i as int).push(all[i as int]));
        i = i + 1;
    }
    assert(all.take(i as int) =~= all);
    langs
}

/// The failed targets of a batch in one line, for the log.
pub fn failed_targets_text(failed: &Vec<TargetTranslationFailure>) -> (s: String)
    ensures
        s@ == joined(failure_texts(failure_views(failed@)), "; "@),
{
    let ghost all = failure_texts(failure_views(failed@));
    let mut parts: Vec<String> = Vec::new();
    let mut i: usize = 0;
    assert(texts(parts@) =~= all.take(0));
    while i < failed.len()
        invariant
            i <= failed@.len(),
            all == failure_texts(failure_views(failed@)),
            texts(parts@) == all.take(i as int),
        decreases failed@.len() - i,
    {
        let ghost before = texts(parts@);
        let mut part: String = failed[i].target.clone();
        part.append(" attempts=");
        let attempts: usize = failed[i].attempts;
        let number = decimal_text(attempts as u64);
        part.append(number.as_str());
        part.append(" class=");
        part.append(failed[i].error.class());
        part.append(" detail=");
        part.append(failed[i].error.detail.as_str());
        assert(part@ == failure_text(failed[i as int]@));
        parts.push(part);
        assert(texts(parts@) =~= before.push(all[i as int]));
        assert(all.take(i + 1) =~= all.take(i as int).push(all[i as int]));
        i = i + 1;
    }
    assert(all.take(i as int) =~= all);
    join(&parts, "; ")
}

/// Notes that the translation of an event is suppressed: every failed target
/// counts as a failure of the backend, the event as skipped. Returns the row
/// for the durable history.
pub fn log_suppressed_translation(
    stats: &mut Stats,
    failure: &TranslationBatchFailure,
    room_id: &str,
    event_id: &str,
    at: Option<u64>,
) -> (row: DbEventOutcome)
    requires
        old(stats)@.wf(),
    ensures
        final(stats)@.wf(),
        final(stats)@ == suppression_noted(old(stats)@, failure@, room_id@, event_id@, at),
        row@ == stored(suppressed_outcome(failure@, room_id@, event_id@, at)),
{
    let n: usize = failure.failed_targets.len();
    stats.translation_api_failures = stats.translation_api_failures.wrapping_add(n as u64);
    stats.record_skip(SkipReason::TranslationSuppressed);
    let langs = copy_langs(&failure.failed_targets);
    stats.push_outcome(
        EventOutcome {
            event_id: event_id.to_owned(),
            room_id: room_id.to_owned(),
            sender: None,
            msgtype: failure.context.to_owned(),
            text_source: failure.context,
            decision: "error",
            reason: Some(SkipReason::TranslationSuppressed.as_str()),
            source_lang: Some(failure.source.clone()),
            targets: Some(join(&langs, ",")),
            matrix_send: None,
            duration_ms: None,
            at,
        },
    )
}

// ── Laws ────────────────────────────────────────────────────────────────────
/// A skip changes the count of its reason and the history, and nothing else; the
/// newest outcome says which event was skipped and for what.
pub proof fn law_skip_is_noted(
    stats: StatsView,
    subject: SubjectView,
    reason: SkipReason,
    at: Option<u64>,
)
    ensures
        ({
            let after = skip_noted(stats, subject, reason, at);
            let o = skip_outcome(subject, reason, at);
            &&& after.skipped == counted(stats.skipped, reason)
            &&& after.recent == ring_push(stats.recent, o)
            &&& after == (StatsView { skipped: after.skipped, recent: after.recent, ..stats })
            &&& o.event_id == subject.event_id && o.room_id == subject.room_id && o.sender
                == subject.sender && o.msgtype == subject.msgtype && o.text_source
                == subject.text_source
            &&& o.decision == "skip"@ && o.reason == Some(reason.label()) && o.at == at
            &&& o.source_lang is None && o.targets is None && o.matrix_send is None && o.duration_ms
                is None
        }),
{
}

/// A translation that was made is counted, and so is its failure to be sent;
/// besides, only the history changes. The newest outcome says what was
/// translated, from which language into which, whether it was sent and how long
/// it took.
pub proof fn law_translation_is_noted(
    stats: StatsView,
    subject: SubjectView,
    source: Seq<char>,
    targets: Seq<Seq<char>>,
    send_ok: bool,
    duration: Interval,
    at: Option<u64>,
)
    ensures
        ({
            let after = translation_noted(
                stats,
                subject,
                source,
                targets,
                send_ok,
                duration,
                at,
            );
            let o = translated_outcome(subject, source, targets, send_ok, duration, at);
            &&& after.translated == stats.translated.wrapping_add(1)
            &&& after.matrix_send_failures == if send_ok {
                stats.matrix_send_failures
            } else {
                stats.matrix_send_failures.wrapping_add(1)
            }
            &&& after.recent == ring_push(stats.recent, o)
            &&& after == (StatsView {
                translated: after.translated,
                matrix_send_failures: after.matrix_send_failures,
                recent: after.recent,
                ..stats
            })
            &&& o.event_id == subject.event_id && o.room_id == subject.room_id && o.msgtype
                == subject.msgtype && o.text_source == subject.text_source
            &&& subject.sender matches Some(sender) ==> o.sender == Some(sender)
            &&& subject.sender is None ==> o.sender == Some("-"@)
            &&& o.decision == "translate"@ && o.reason is None && o.source_lang == Some(source)
            &&& o.targets == Some(joined(targets, ","@))
            &&& o.matrix_send == Some(
                if send_ok {
                    "ok"@
                } else {
                    "failed"@
                },
            )
            &&& o.duration_ms matches Some(ms) && ms == duration.nanos / 1_000_000
            &&& o.at == at
        }),
{
}

/// A suppressed translation counts each failed target and the skip; besides,
/// only the history changes. The newest outcome names the languages that failed.
pub proof fn law_suppression_is_noted(
    stats: StatsView,
    failure: BatchFailureView,
    room_id: Seq<char>,
    event_id: Seq<char>,
    at: Option<u64>,
)
    ensures
        ({
            let after = suppression_noted(stats, failure, room_id, event_id, at);
            let o = suppressed_outcome(failure, room_id, event_id, at);
            let langs = failure.failed_targets.map_values(|f: TargetFailureView| f.target);
            &&& after.translation_api_failures == stats.translation_api_failures.wrapping_add(
                failure.failed_targets.len() as u64,
            )
            &&& after.skipped == counted(stats.skipped, SkipReason::TranslationSuppressed)
            &&& after.recent == ring_push(stats.recent, o)
            &&& after == (StatsView {
                translation_api_failures: after.translation_api_failures,
                skipped: after.skipped,
                recent: after.recent,
                ..stats
            })
            &&& o.event_id == event_id && o.room_id == room_id && o.sender is None
            &&& o.msgtype == failure.context && o.text_source == failure.context
            &&& o.decision == "error"@ && o.reason == Some("translation_suppressed"@)
            &&& o.source_lang == Some(failure.source) && o.targets == Some(joined(langs, ","@))
            &&& o.matrix_send is None && o.duration_ms is None && o.at == at
        }),
{
    let langs = failure.failed_targets.map_values(|f: TargetFailureView| f.target);
    assert(failed_langs(failure.failed_targets) =~= langs);
}

/// The log names a failed target, its attempts, and what was wrong.
pub proof fn law_failures_are_described(f: TargetFailureView, failed: Seq<TargetFailureView>)
    ensures
        failure_text(f) == f.target + " attempts="@ + decimal(f.attempts) + " class="@
            + f.error.kind.label() + " detail="@ + f.error.detail,
        failure_texts(failed) == failed.map_values(|x: TargetFailureView| failure_text(x)),
{
    assert(failure_texts(failed) =~= failed.map_values(|x: TargetFailureView| failure_text(x)));
}

/// A subject says what it holds.
pub proof fn law_subject_views(subject: Subject)
    ensures
        subject@.event_id == subject.event_id@ && subject@.room_id == subject.room_id@
            && subject@.msgtype == subject.msgtype@ && subject@.text_source
            == subject.text_source@,
        subject.sender matches Some(sender) ==> subject@.sender == Some(sender@),
        subject.sender is None ==> subject@.sender is None,
{
}

} // verus!

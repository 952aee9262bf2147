//! The answers to `!translate`.
use vstd::prelude::*;

use crate::compose::{decimal, decimal_text, join, joined, signed_decimal, signed_text};
use crate::config::TranslationConfig;
use crate::db::EVENT_OUTCOMES_RETENTION;
use crate::outcome::{DbEventOutcome, DbEventOutcomeView};
use crate::stats::{
    listing, named_counts, names, opt_row, Stats, StatsView, EVENT_OUTCOME_HISTORY,
};
use crate::text::{opt_text, texts};

verus! {

// ── Version, status, statistics ─────────────────────────────────────────────
/// The name and version of the program.
pub open spec fn version_text(version: Seq<char>, git_hash: Seq<char>) -> Seq<char> {
    "translate-bot v"@ + version + " ("@ + git_hash + ")"@
}

/// The name and version of the program.
pub fn translate_version_report(version: &str, git_hash: &str) -> (s: String)
    ensures
        s@ == version_text(version@, git_hash@),
{
    let mut s: String = "translate-bot v".to_owned();
    s.append(version);
    s.append(" (");
    s.append(git_hash);
    s.append(")");
    s
}

/// What the translation backend answered to a probe.
pub enum Probe {
    Reachable,
    /// An answer other than success, with its status.
    Status(String),
    /// No answer, and why.
    Unreachable(String),
}

impl Probe {
    pub open spec fn text(self) -> Seq<char> {
        match self {
            Probe::Reachable => "reachable"@,
            Probe::Status(status) => "HTTP "@ + status@,
            Probe::Unreachable(problem) => "unreachable: "@ + problem@,
        }
    }

    /// The probe as the status report shows it.
    pub fn describe(&self) -> (s: String)
        ensures
            s@ == self.text(),
    {
        match self {
            Probe::Reachable => "reachable".to_owned(),
            Probe::Status(status) => {
                let mut s: String = "HTTP ".to_owned();
                s.append(status.as_str());
                s
            },
            Probe::Unreachable(problem) => {
                let mut s: String = "unreachable: ".to_owned();
                s.append(problem.as_str());
                s
            },
        }
    }
}

/// A text in quotes, with its special characters escaped.
pub uninterp spec fn quoted(s: Seq<char>) -> Seq<char>;

/// Writes a text as `std`'s `Debug` of `str` does: in quotes, with escapes. The
/// result depends on the text alone.
#[verifier::external_body]
fn debug_text(s: &str) -> (r: String)
    ensures
        r@ == quoted(s@),
{
    format!("{s:?}")
}

/// The quoted texts of `list`.
pub open spec fn all_quoted(list: Seq<Seq<char>>) -> Seq<Seq<char>> {
    Seq::new(list.len(), |i: int| quoted(list[i]))
}

/// A list of texts in brackets.
pub open spec fn bracketed(quoted_list: Seq<Seq<char>>) -> Seq<char> {
    "["@ + joined(quoted_list, ", "@) + "]"@
}

fn quote_all(list: &Vec<String>) -> (r: Vec<String>)
    ensures
        texts(r@) == all_quoted(texts(list@)),
{
    let ghost all = all_quoted(texts(list@));
    let mut r: Vec<String> = Vec::new();
    let mut i: usize = 0;
    assert(texts(r@) =~= all.take(0));
    while i < list.len()
        invariant
            i <= list@.len(),
            all == all_quoted(texts(list@)),
            texts(r@) == all.take(i as int),
        decreases list@.len() - i,
    {
        let ghost before = texts(r@);
        r.push(debug_text(list[i].as_str()));
        assert(texts(r@) =~= before.push(all[i as int]));
        assert(all.take(i + 1) =~= all.take(i as int).push(all[i as int]));
        i = i + 1;
    }
    assert(all.take(i as int) =~= all);
    r
}

/// The status of the bot, given its languages in quotes.
pub open spec fn status_text<C>(
    version: Seq<char>,
    uptime_secs: u64,
    probe: Probe,
    stats: StatsView,
    config: TranslationConfig<C>,
    quoted_langs: Seq<Seq<char>>,
    min_confidence: Seq<char>,
) -> Seq<char> {
    version + " uptime="@ + decimal(uptime_secs as nat) + "s ltengine="@ + probe.text()
        + " sync_reconnects="@ + decimal(stats.sync_reconnects as nat) + "\nlangs="@ + bracketed(
        quoted_langs,
    ) + " min_confidence="@ + min_confidence + " backend_concurrency="@ + decimal(
        config.backend_concurrency as nat,
    ) + " request_timeout_secs="@ + decimal(config.request_timeout_secs as nat)
        + " overall_timeout_secs="@ + decimal(config.overall_timeout_secs as nat)
        + " max_attempts="@ + decimal(config.max_attempts as nat) + "\nevents_seen="@ + decimal(
        stats.events_seen as nat,
    ) + " translated="@ + decimal(stats.translated as nat) + " decrypt_failures="@ + decimal(
        stats.decrypt_failures as nat,
    ) + " matrix_send_failures="@ + decimal(stats.matrix_send_failures as nat)
}

fn append_number(s: &mut String, n: u64)
    ensures
        final(s)@ == old(s)@ + decimal(n as nat),
{
    let digits = decimal_text(n);
    s.append(digits.as_str());
}

/// The status of the bot, given its languages in quotes and the text of the
/// confidence threshold.
pub fn status_report_given<C>(
    version: &str,
    uptime_secs: u64,
    probe: &Probe,
    stats: &Stats,
    config: &TranslationConfig<C>,
    quoted_langs: &Vec<String>,
    min_confidence: &str,
) -> (s: String)
    ensures
        s@ == status_text(
            version@,
            uptime_secs,
            *probe,
            stats@,
            *config,
            texts(quoted_langs@),
            min_confidence@,
        ),
{
    let mut langs: String = "[".to_owned();
    let list = join(quoted_langs, ", ");
    langs.append(list.as_str());
    langs.append("]");
    let ltengine = probe.describe();
    let mut s: String = version.to_owned();
    s.append(" uptime=");
    append_number(&mut s, uptime_secs);
    s.append("s ltengine=");
    s.append(ltengine.as_str());
    s.append(" sync_reconnects=");
    append_number(&mut s, stats.sync_reconnects);
    s.append("\nlangs=");
    s.append(langs.as_str());
    s.append(" min_confidence=");
    s.append(min_confidence);
    s.append(" backend_concurrency=");
    append_number(&mut s, config.backend_concurrency as u64);
    s.append(" request_timeout_secs=");
    append_number(&mut s, config.request_timeout_secs);
    s.append(" overall_timeout_secs=");
    append_number(&mut s, config.overall_timeout_secs);
    s.append(" max_attempts=");
    append_number(&mut s, config.max_attempts as u64);
    s.append("\nevents_seen=");
    append_number(&mut s, stats.events_seen);
    s.append(" translated=");
    append_number(&mut s, stats.translated);
    s.append(" decrypt_failures=");
    append_number(&mut s, stats.decrypt_failures);
    s.append(" matrix_send_failures=");
    append_number(&mut s, stats.matrix_send_failures);
    s
}

/// The status of the bot, given the text of the confidence threshold.
pub fn translate_status_report<C>(
    version: &str,
    uptime_secs: u64,
    probe: &Probe,
    stats: &Stats,
    config: &TranslationConfig<C>,
    min_confidence: &str,
) -> (s: String)
    ensures
        s@ == status_text(
            version@,
            uptime_secs,
            *probe,
            stats@,
            *config,
            all_quoted(texts(config.langs@)),
            min_confidence@,
        ),
{
    let quoted_langs = quote_all(&config.langs);
    status_report_given(version, uptime_secs, probe, stats, config, &quoted_langs, min_confidence)
}

/// Names with their counts, each as `name=count`.
pub open spec fn count_texts(counts: Seq<(Seq<char>, u64)>) -> Seq<Seq<char>> {
    Seq::new(counts.len(), |i: int| counts[i].0 + "="@ + decimal(counts[i].1 as nat))
}

/// The counts of the skip reasons in one line.
pub open spec fn skipped_text(counts: Seq<(Seq<char>, u64)>) -> Seq<char> {
    if counts.len() == 0 {
        "none"@
    } else {
        joined(count_texts(counts), ", "@)
    }
}

/// The counters of the bot.
pub open spec fn stats_text(stats: StatsView) -> Seq<char> {
    "events_seen="@ + decimal(stats.events_seen as nat) + " translated="@ + decimal(
        stats.translated as nat,
    ) + " decrypt_failures="@ + decimal(stats.decrypt_failures as nat)
        + " translation_api_failures="@ + decimal(stats.translation_api_failures as nat)
        + " matrix_send_failures="@ + decimal(stats.matrix_send_failures as nat) + " retries="@
        + decimal(stats.retries as nat) + " retries_succeeded="@ + decimal(
        stats.retries_succeeded as nat,
    ) + "\nskipped: "@ + skipped_text(names(listing(stats.skipped)))
}

fn skipped_line(counts: &Vec<(&'static str, u64)>) -> (s: String)
    ensures
        s@ == skipped_text(named_counts(counts@)),
{
    if counts.len() == 0 {
        return "none".to_owned();
    }
    let ghost all = count_texts(named_counts(counts@));
    let mut parts: Vec<String> = Vec::new();
    let mut i: usize = 0;
    assert(texts(parts@) =~= all.take(0));
    while i < counts.len()
        invariant
            i <= counts@.len(),
            all == count_texts(named_counts(counts@)),
            texts(parts@) == all.take(i as int),
        decreases counts@.len() - i,
    {
        let ghost before = texts(parts@);
        let mut part: String = counts[i].0.to_owned();
        part.append("=");
        append_number(&mut part, counts[i].1);
        assert(part@ == all[i as int]);
        parts.push(part);
        assert(texts(parts@) =~= before.push(all[i as int]));
        assert(all.take(i + 1) =~= all.take(i as int).push(all[i as int]));
        i = i + 1;
    }
    assert(all.take(i as int) =~= all);
    join(&parts, ", ")
}

/// The counters of the bot.
pub fn translate_stats_report(stats: &Stats) -> (s: String)
    ensures
        s@ == stats_text(stats@),
{
    let skipped = stats.skipped_snapshot();
    let line = skipped_line(&skipped);
    let mut s: String = "events_seen=".to_owned();
    append_number(&mut s, stats.events_seen);
    s.append(" translated=");
    append_number(&mut s, stats.translated);
    s.append(" decrypt_failures=");
    append_number(&mut s, stats.decrypt_failures);
    s.append(" translation_api_failures=");
    append_number(&mut s, stats.translation_api_failures);
    s.append(" matrix_send_failures=");
    append_number(&mut s, stats.matrix_send_failures);
    s.append(" retries=");
    append_number(&mut s, stats.retries);
    s.append(" retries_succeeded=");
    append_number(&mut s, stats.retries_succeeded);
    s.append("\nskipped: ");
    s.append(line.as_str());
    s
}

// ── Debug ───────────────────────────────────────────────────────────────────
/// A text, or a dash where there is none.
pub open spec fn or_dash(s: Option<Seq<char>>) -> Seq<char> {
    match s {
        Some(t) => t,
        None => "-"@,
    }
}

/// How long ago `at` was, in seconds; zero for a time to come.
pub open spec fn secs_ago(now: i64, at: i64) -> int {
    if now > at {
        now - at
    } else {
        0
    }
}

/// An outcome in one line.
pub open spec fn outcome_text(o: DbEventOutcomeView, now: i64) -> Seq<char> {
    "event="@ + o.event_id + " room="@ + o.room_id + " sender="@ + or_dash(o.sender) + " msgtype="@
        + o.msgtype + " text_source="@ + o.text_source + " decision="@ + o.decision + " reason="@
        + or_dash(o.reason) + " source="@ + or_dash(o.source_lang) + " targets="@ + or_dash(
        o.targets,
    ) + " matrix_send="@ + or_dash(o.matrix_send) + " duration_ms="@ + or_dash(
        match o.duration_ms {
            Some(d) => Some(signed_decimal(d as int)),
            None => None,
        },
    ) + " ("@ + decimal(secs_ago(now, o.at) as nat) + "s ago)"@
}

/// The answer to `!translate debug` with the argument `arg`.
pub open spec fn debug_answer(
    arg: Seq<char>,
    found: Option<DbEventOutcomeView>,
    now: i64,
) -> Seq<char> {
    if arg.len() == 0 {
        "Usage: !translate debug <event-id>"@
    } else {
        match found {
            Some(o) => outcome_text(o, now),
            None => "No record for "@ + arg
                + " — either it wasn't processed by this pipeline, or it's older than the retained history (in-memory: last "@
                + decimal(EVENT_OUTCOME_HISTORY as nat)
                + " events this process has seen; DB: last "@ + decimal(
                EVENT_OUTCOMES_RETENTION as nat,
            ) + " events across restarts)."@,
        }
    }
}

fn append_or_dash(s: &mut String, t: &Option<String>)
    ensures
        final(s)@ == old(s)@ + or_dash(opt_text(*t)),
{
    match t {
        Some(text) => {
            s.append(text.as_str());
        },
        None => {
            s.append("-");
        },
    }
}

fn outcome_line(o: &DbEventOutcome, now: i64) -> (s: String)
    requires
        now - o.at <= i64::MAX,
    ensures
        s@ == outcome_text(o@, now),
{
    let ago: u64 = if now > o.at {
        (now - o.at) as u64
    } else {
        0
    };
    let mut s: String = "event=".to_owned();
    s.append(o.event_id.as_str());
    s.append(" room=");
    s.append(o.room_id.as_str());
    s.append(" sender=");
    append_or_dash(&mut s, &o.sender);
    s.append(" msgtype=");
    s.append(o.msgtype.as_str());
    s.append(" text_source=");
    s.append(o.text_source.as_str());
    s.append(" decision=");
    s.append(o.decision.as_str());
    s.append(" reason=");
    append_or_dash(&mut s, &o.reason);
    s.append(" source=");
    append_or_dash(&mut s, &o.source_lang);
    s.append(" targets=");
    append_or_dash(&mut s, &o.targets);
    s.append(" matrix_send=");
    append_or_dash(&mut s, &o.matrix_send);
    s.append(" duration_ms=");
    let duration: Option<String> = match o.duration_ms {
        Some(d) => Some(signed_text(d)),
        None => None,
    };
    append_or_dash(&mut s, &duration);
    s.append(" (");
    append_number(&mut s, ago);
    s.append("s ago)");
    s
}

/// Whether the age of `found` at the time `now` can be told.
pub open spec fn datable(found: Option<DbEventOutcome>, now: i64) -> bool {
    found matches Some(o) ==> i64::MIN <= now - o.at <= i64::MAX
}

/// The answer to `!translate debug`, given the newest outcome of the event.
pub fn translate_debug_report(arg: &str, found: &Option<DbEventOutcome>, now: i64) -> (s: String)
    requires
        datable(*found, now),
    ensures
        s@ == debug_answer(arg@, opt_row(*found), now),
{
    if arg.is_empty() {
        return "Usage: !translate debug <event-id>".to_owned();
    }
    match found {
        Some(o) => outcome_line(o, now),
        None => {
            let mut s: String = "No record for ".to_owned();
            s.append(arg);
            s.append(
                " — either it wasn't processed by this pipeline, or it's older than the retained history (in-memory: last ",
            );
            append_number(&mut s, EVENT_OUTCOME_HISTORY as u64);
            s.append(" events this process has seen; DB: last ");
            append_number(&mut s, EVENT_OUTCOMES_RETENTION as u64);
            s.append(" events across restarts).");
            s
        },
    }
}

/// The answer to `!translate` without a known subcommand.
pub fn usage() -> (s: String)
    ensures
        s@ == "Usage: !translate <status|stats|debug <event-id>|retry <event-id>|version>"@,
{
    "Usage: !translate <status|stats|debug <event-id>|retry <event-id>|version>".to_owned()
}

// ── Laws ────────────────────────────────────────────────────────────────────
/// What the reports are made of: texts in quotes stand in brackets in their
/// order, a count behind its name, a dash for what is unknown, and an age counts
/// no future.
pub proof fn law_parts_of_reports(
    list: Seq<Seq<char>>,
    counts: Seq<(Seq<char>, u64)>,
    text: Seq<char>,
    now: i64,
    at: i64,
    i: int,
)
    ensures
        all_quoted(list) == list.map_values(|s: Seq<char>| quoted(s)),
        bracketed(list).len() >= 2,
        bracketed(list)[0] == '[',
        bracketed(list).last() == ']',
        bracketed(list).drop_first().drop_last() == joined(list, seq![',', ' ']),
        count_texts(counts).len() == counts.len(),
        0 <= i < counts.len() ==> count_texts(counts)[i] == counts[i].0 + seq!['='] + decimal(
            counts[i].1 as nat,
        ),
        counts.len() == 0 ==> skipped_text(counts) == "none"@,
        counts.len() > 0 ==> skipped_text(counts) == joined(count_texts(counts), seq![',', ' ']),
        or_dash(Some(text)) == text,
        or_dash(None) == "-"@,
        at <= now ==> at + secs_ago(now, at) == now,
        at >= now ==> secs_ago(now, at) == 0,
{
    reveal_strlit("[");
    reveal_strlit("]");
    reveal_strlit(", ");
    reveal_strlit("=");
    assert(", "@ =~= seq![',', ' ']);
    assert("="@ =~= seq!['=']);
    assert(all_quoted(list) =~= list.map_values(|s: Seq<char>| quoted(s)));
    assert(bracketed(list).drop_first().drop_last() =~= joined(list, ", "@));
}

/// What a probe is told as, and the name of the program with its version.
pub proof fn law_probes(text: String, version: Seq<char>, git_hash: Seq<char>)
    ensures
        Probe::Reachable.text() == "reachable"@,
        Probe::Status(text).text() == "HTTP "@ + text@,
        Probe::Unreachable(text).text() == "unreachable: "@ + text@,
        version_text(version, git_hash) == "translate-bot v"@ + version + " ("@ + git_hash + ")"@,
{
}

/// The statistics name each counter with its own value.
pub proof fn law_statistics(stats: StatsView)
    ensures
        ({
            let n = |name: Seq<char>, count: u64| name + decimal(count as nat);
            stats_text(stats) == n("events_seen="@, stats.events_seen) + " translated="@ + decimal(
                stats.translated as nat,
            ) + " decrypt_failures="@ + decimal(stats.decrypt_failures as nat)
                + " translation_api_failures="@ + decimal(stats.translation_api_failures as nat)
                + " matrix_send_failures="@ + decimal(stats.matrix_send_failures as nat)
                + " retries="@ + decimal(stats.retries as nat) + " retries_succeeded="@ + decimal(
                stats.retries_succeeded as nat,
            ) + "\nskipped: "@ + skipped_text(names(listing(stats.skipped)))
        }),
{
}

/// The status names each setting and counter with its own value.
pub proof fn law_status<C>(
    version: Seq<char>,
    uptime_secs: u64,
    probe: Probe,
    stats: StatsView,
    config: TranslationConfig<C>,
    langs: Seq<Seq<char>>,
    min_confidence: Seq<char>,
)
    ensures
        ({
            let line1 = version + " uptime="@ + decimal(uptime_secs as nat) + "s ltengine="@
                + probe.text() + " sync_reconnects="@ + decimal(stats.sync_reconnects as nat);
            let line2 = line1 + "\nlangs="@ + bracketed(langs) + " min_confidence="@
                + min_confidence + " backend_concurrency="@ + decimal(
                config.backend_concurrency as nat,
            ) + " request_timeout_secs="@ + decimal(config.request_timeout_secs as nat)
                + " overall_timeout_secs="@ + decimal(config.overall_timeout_secs as nat)
                + " max_attempts="@ + decimal(config.max_attempts as nat);
            let line3 = line2 + "\nevents_seen="@ + decimal(stats.events_seen as nat)
                + " translated="@ + decimal(stats.translated as nat) + " decrypt_failures="@
                + decimal(stats.decrypt_failures as nat) + " matrix_send_failures="@ + decimal(
                stats.matrix_send_failures as nat,
            );
            status_text(version, uptime_secs, probe, stats, config, langs, min_confidence) == line3
        }),
{
}

/// An outcome is told with all that is known of it, and an event without one
/// with how far the two histories reach.
pub proof fn law_debug_answers(arg: Seq<char>, o: DbEventOutcomeView, now: i64)
    requires
        arg.len() > 0,
    ensures
        debug_answer(Seq::empty(), Some(o), now) == "Usage: !translate debug <event-id>"@,
        debug_answer(Seq::empty(), None, now) == "Usage: !translate debug <event-id>"@,
        ({
            let place = "event="@ + o.event_id + " room="@ + o.room_id + " sender="@ + or_dash(
                o.sender,
            );
            let content = place + " msgtype="@ + o.msgtype + " text_source="@ + o.text_source;
            let end = content + " decision="@ + o.decision + " reason="@ + or_dash(o.reason);
            let langs = end + " source="@ + or_dash(o.source_lang) + " targets="@ + or_dash(
                o.targets,
            ) + " matrix_send="@ + or_dash(o.matrix_send);
            let millis = match o.duration_ms {
                Some(d) => signed_decimal(d as int),
                None => "-"@,
            };
            debug_answer(arg, Some(o), now) == langs + " duration_ms="@ + millis + " ("@ + decimal(
                secs_ago(now, o.at) as nat,
            ) + "s ago)"@
        }),
        debug_answer(arg, None, now) == "No record for "@ + arg
            + " — either it wasn't processed by this pipeline, or it's older than the retained history (in-memory: last "@
            + decimal(300) + " events this process has seen; DB: last "@ + decimal(5_000)
            + " events across restarts)."@,
{
}

} // verus!

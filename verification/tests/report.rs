use translate_bot::config::TranslationConfig;
use translate_bot::outcome::DbEventOutcome;
use translate_bot::report::{
    status_report_given, translate_debug_report, translate_stats_report,
    translate_status_report, translate_version_report, usage, Probe,
};
use translate_bot::skip::SkipReason;
use translate_bot::stats::Stats;

#[test]
fn version_names_the_build() {
    assert_eq!(
        translate_version_report("1.2.3", "abc1234"),
        "translate-bot v1.2.3 (abc1234)"
    );
}

#[test]
fn status_shows_settings_and_counters() {
    let mut stats = Stats::new();
    stats.sync_reconnects = 2;
    stats.events_seen = 30;
    stats.translated = 20;
    stats.decrypt_failures = 4;
    stats.matrix_send_failures = 5;
    let config = TranslationConfig::default(0.5);
    let expected = "v uptime=61s ltengine=reachable sync_reconnects=2\n\
         langs=[\"en\", \"de\"] min_confidence=0.50 backend_concurrency=4 \
         request_timeout_secs=60 overall_timeout_secs=90 max_attempts=3\n\
         events_seen=30 translated=20 decrypt_failures=4 matrix_send_failures=5";
    assert_eq!(
        translate_status_report("v", 61, &Probe::Reachable, &stats, &config, "0.50"),
        expected
    );
    let quoted = vec!["\"en\"".to_owned(), "\"de\"".to_owned()];
    assert_eq!(
        status_report_given("v", 61, &Probe::Reachable, &stats, &config, &quoted, "0.50"),
        expected
    );
}

#[test]
fn status_escapes_languages() {
    let mut config = TranslationConfig::default(0.5);
    config.langs = vec!["a\"b\n".to_owned()];
    let report =
        translate_status_report("v", 0, &Probe::Reachable, &Stats::new(), &config, "0.50");
    assert!(report.contains("langs=[\"a\\\"b\\n\"]"), "{report}");
    config.langs = vec![];
    let report =
        translate_status_report("v", 0, &Probe::Reachable, &Stats::new(), &config, "0.50");
    assert!(report.contains("langs=[] "), "{report}");
}

#[test]
fn probes_are_described() {
    assert_eq!(Probe::Reachable.describe(), "reachable");
    assert_eq!(
        Probe::Status("503 Service Unavailable".to_owned()).describe(),
        "HTTP 503 Service Unavailable"
    );
    assert_eq!(Probe::Unreachable("refused".to_owned()).describe(), "unreachable: refused");
}

#[test]
fn stats_show_all_counters() {
    let mut stats = Stats::new();
    assert_eq!(
        translate_stats_report(&stats),
        "events_seen=0 translated=0 decrypt_failures=0 translation_api_failures=0 \
         matrix_send_failures=0 retries=0 retries_succeeded=0\nskipped: none"
    );
    stats.retries = u64::MAX;
    stats.record_skip(SkipReason::NoCaption);
    stats.record_skip(SkipReason::Backlog);
    stats.record_skip(SkipReason::NoCaption);
    assert_eq!(
        translate_stats_report(&stats),
        "events_seen=0 translated=0 decrypt_failures=0 translation_api_failures=0 \
         matrix_send_failures=0 retries=18446744073709551615 retries_succeeded=0\n\
         skipped: no_caption=2, backlog=1"
    );
}

fn outcome() -> DbEventOutcome {
    DbEventOutcome {
        event_id: "$e:x".to_owned(),
        room_id: "!r:x".to_owned(),
        sender: None,
        msgtype: "m.text".to_owned(),
        text_source: "body".to_owned(),
        decision: "translate".to_owned(),
        reason: None,
        source_lang: Some("de".to_owned()),
        targets: Some("en".to_owned()),
        matrix_send: Some("ok".to_owned()),
        duration_ms: Some(-5),
        at: 100,
    }
}

#[test]
fn debug_shows_the_outcome() {
    assert_eq!(
        translate_debug_report("$e:x", &Some(outcome()), 160),
        "event=$e:x room=!r:x sender=- msgtype=m.text text_source=body decision=translate \
         reason=- source=de targets=en matrix_send=ok duration_ms=-5 (60s ago)"
    );
    let mut later = outcome();
    later.duration_ms = None;
    later.sender = Some("@a:x".to_owned());
    let report = translate_debug_report("$e:x", &Some(later), 99);
    assert!(report.contains("sender=@a:x"));
    assert!(report.ends_with("duration_ms=- (0s ago)"), "{report}");
}

#[test]
fn debug_without_a_record() {
    assert_eq!(translate_debug_report("", &None, 0), "Usage: !translate debug <event-id>");
    assert_eq!(
        translate_debug_report("$x", &None, 0),
        "No record for $x — either it wasn't processed by this pipeline, or it's older than \
         the retained history (in-memory: last 300 events this process has seen; DB: last \
         5000 events across restarts)."
    );
}

#[test]
fn usage_lists_the_subcommands() {
    assert_eq!(
        usage(),
        "Usage: !translate <status|stats|debug <event-id>|retry <event-id>|version>"
    );
}

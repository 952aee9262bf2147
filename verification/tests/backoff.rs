use translate_bot::backoff::{
    asked_delay, classify_send_error, next_sync_backoff, sync_retry_delay, JoinRetry, JoinStep,
    RetryAfter, SendFailure, SendRetry, ServerError, SyncLoop, SYNC_RETRY_INITIAL_SECS,
    SYNC_RETRY_MAX_SECS,
};
use translate_bot::interval::Interval;
use translate_bot::stats::Stats;

#[test]
fn sync_retry_delay_holds_backoff_when_unhealthy() {
    assert_eq!(
        sync_retry_delay(Interval::from_secs(80), false),
        Interval::from_secs(80)
    );
}

#[test]
fn sync_retry_delay_resets_to_floor_when_healthy() {
    assert_eq!(
        sync_retry_delay(Interval::from_secs(300), true),
        Interval::from_secs(SYNC_RETRY_INITIAL_SECS)
    );
}

#[test]
fn sync_retry_backoff_doubles_and_caps() {
    let mut backoff = Interval::from_secs(SYNC_RETRY_INITIAL_SECS);
    for _ in 0..20 {
        let delay = sync_retry_delay(backoff, false);
        backoff = next_sync_backoff(delay);
    }
    assert_eq!(backoff, Interval::from_secs(SYNC_RETRY_MAX_SECS));
}

#[test]
fn sync_loop_counts_and_backs_off() {
    let mut stats = Stats::new();
    let mut sync = SyncLoop::start();
    let short = Interval::from_secs(59);
    let delays: Vec<u64> =
        (0..8).map(|_| sync.on_session_end(short, &mut stats).as_secs()).collect();
    assert_eq!(delays, vec![5, 10, 20, 40, 80, 160, 300, 300]);
    assert_eq!(sync.on_session_end(Interval::from_secs(60), &mut stats).as_secs(), 5);
    assert_eq!(sync.on_session_end(short, &mut stats).as_secs(), 10);
    assert_eq!(stats.sync_reconnects, 10);
}

#[test]
fn send_errors_are_classified() {
    assert_eq!(classify_send_error(SendFailure::NonHttp), (false, None));
    assert_eq!(classify_send_error(SendFailure::NoReply), (true, None));
    let api = |status, retry_after| SendFailure::Api { status, retry_after };
    assert_eq!(classify_send_error(api(403, None)), (false, None));
    assert_eq!(classify_send_error(api(499, None)), (false, None));
    assert_eq!(classify_send_error(api(500, None)), (true, None));
    let asked = Some(Interval::from_secs(7));
    assert_eq!(classify_send_error(api(429, asked)), (true, asked));
}

#[test]
fn a_server_asks_for_a_delay_or_a_date() {
    let secs = Interval::from_secs;
    let now = secs(1_000);
    assert_eq!(asked_delay(None, now), None);
    assert_eq!(asked_delay(Some(RetryAfter::Delay(secs(7))), now), Some(secs(7)));
    assert_eq!(asked_delay(Some(RetryAfter::Date(secs(1_060))), now), Some(secs(60)));
    assert_eq!(asked_delay(Some(RetryAfter::Date(now)), now), Some(secs(0)));
    assert_eq!(asked_delay(Some(RetryAfter::Date(secs(999))), now), None);
}

#[test]
fn only_a_rate_limit_asks_for_a_delay() {
    let now = Interval::from_secs(1_000);
    let limit = |retry_after| ServerError::LimitExceeded { retry_after };
    let classified = |status, error| classify_send_error(SendFailure::from_server(status, error, now));
    let date = RetryAfter::Date(Interval::from_secs(1_030));
    assert_eq!(classified(429, limit(Some(date))), (true, Some(Interval::from_secs(30))));
    assert_eq!(classified(429, limit(None)), (true, None));
    assert_eq!(classified(429, ServerError::Other), (true, None));
    assert_eq!(classified(503, ServerError::Other), (true, None));
    assert_eq!(classified(403, ServerError::Other), (false, None));
    let delay = Interval::from_secs(5);
    assert_eq!(classified(400, limit(Some(RetryAfter::Delay(delay)))), (false, Some(delay)));
}

#[test]
fn sending_is_tried_four_times() {
    let mut retry = SendRetry::start();
    let mut waits = Vec::new();
    while let Some(wait) = retry.on_failure(SendFailure::NoReply) {
        waits.push(wait.as_secs());
    }
    assert_eq!(waits, vec![2, 4, 8]);
    assert_eq!(retry.attempt, 4);
}

#[test]
fn sending_waits_exactly_as_long_as_the_server_asks() {
    let mut retry = SendRetry::start();
    let api = |secs| SendFailure::Api {
        status: 429,
        retry_after: Some(Interval::from_secs(secs)),
    };
    assert_eq!(retry.on_failure(api(5)), Some(Interval::from_secs(5)));
    assert_eq!(retry.on_failure(api(3600)), Some(Interval::from_secs(3600)));
    // The own backoff has doubled meanwhile.
    assert_eq!(retry.on_failure(SendFailure::NoReply), Some(Interval::from_secs(8)));
    assert_eq!(retry.on_failure(api(1)), None);
    assert_eq!(SendRetry::start().on_failure(api(60)), Some(Interval::from_secs(60)));
}

#[test]
fn the_own_backoff_is_capped() {
    let mut retry = SendRetry { attempt: 1, backoff: Interval::from_secs(20) };
    assert_eq!(retry.on_failure(SendFailure::NoReply), Some(Interval::from_secs(20)));
    assert_eq!(retry.on_failure(SendFailure::NoReply), Some(Interval::from_secs(30)));
    assert_eq!(retry.backoff, Interval::from_secs(30));
}

#[test]
fn permanent_send_failures_end_at_once() {
    let mut retry = SendRetry::start();
    assert_eq!(retry.on_failure(SendFailure::NonHttp), None);
    assert_eq!(
        retry.on_failure(SendFailure::Api { status: 403, retry_after: None }),
        None
    );
}

#[test]
fn joining_backs_off_and_gives_up() {
    let mut retry = JoinRetry::start();
    let mut waits = Vec::new();
    let end = loop {
        match retry.on_failure(false) {
            JoinStep::RetryAfter(secs) => waits.push(secs),
            other => break other,
        }
    };
    assert_eq!(waits, vec![2, 4, 8, 16, 32, 64, 128]);
    assert_eq!(end, JoinStep::Exhausted);
    assert_eq!(JoinRetry::start().on_failure(true), JoinStep::Terminal);
}

use orecchiette_hackrf::model::{MAX_CONSECUTIVE_STREAM_FAILURES, STREAM_FAILURE_BACKOFF_MS};
use orecchiette_hackrf::scanner::should_abandon_device;
use std::time::Duration;

/// Transient streaming errors must not abandon a working device.
#[test]
fn transient_stream_errors_are_tolerated() {
    for n in 0..MAX_CONSECUTIVE_STREAM_FAILURES {
        assert!(!should_abandon_device(n));
    }
}

/// A device that never delivers samples must be given up on.
#[test]
fn a_device_that_never_streams_is_abandoned() {
    assert!(should_abandon_device(MAX_CONSECUTIVE_STREAM_FAILURES));
    assert!(should_abandon_device(MAX_CONSECUTIVE_STREAM_FAILURES + 50));
}

/// Giving up must happen in a bounded, short time.
#[test]
fn giving_up_is_bounded_in_wall_clock_time() {
    let worst =
        Duration::from_millis(STREAM_FAILURE_BACKOFF_MS) * MAX_CONSECUTIVE_STREAM_FAILURES;
    assert!(
        worst <= Duration::from_secs(2),
        "should abandon a dead device in seconds, not {worst:?}"
    );
}

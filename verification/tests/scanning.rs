use orecchiette_hackrf::model::{
    Event, Outcome, Request, MAX_CONSECUTIVE_STREAM_FAILURES, MAX_CONSECUTIVE_SWEEP_FAILURES,
    REOPEN_BACKOFF_MS, STREAM_FAILURE_BACKOFF_MS, SWEEP_FAILURE_BACKOFF_MS,
};
use orecchiette_hackrf::source::{DeviceSetting, StartEvent, StartRequest, SETTING_COUNT};
use orecchiette_hackrf::{HackRfSource, Hertz, Scanner, SourceConfig};

fn hertz(value: f64) -> Hertz {
    Hertz { bits: value.to_bits() }
}

/// A scan in progress and the request that it waits on.
struct Scan {
    scanner: Scanner,
    request: Request,
}

impl Scan {
    fn over(channels: &[f64]) -> Scan {
        let mut startup = HackRfSource::default()
            .start(SourceConfig {
                channels_hz: channels.iter().map(|hz| hertz(*hz)).collect(),
                sample_rate_hz: hertz(16e6),
            })
            .unwrap();
        startup = startup.step(StartEvent::Opened(true)).unwrap();
        while !matches!(startup.request(), StartRequest::Scan) {
            startup = startup.step(StartEvent::Applied(Ok(()))).unwrap();
        }
        let (scanner, request) = Scanner::new(startup);
        Scan { scanner, request }
    }

    fn answer(&mut self, event: Event) {
        assert!(self.scanner.accepts(&event), "{event:?} does not answer {:?}", self.request);
        self.request = self.scanner.step(event);
    }

    /// Answers a poll, a choice and a tune, up to the question of receive mode.
    fn tune(&mut self, wanted: Option<f64>) -> u64 {
        assert!(matches!(self.request, Request::PollStop));
        self.answer(Event::StopPolled(false));
        if let Request::Pause(ms) = self.request {
            assert_eq!(ms, STREAM_FAILURE_BACKOFF_MS);
            self.answer(Event::Paused);
        }
        assert!(matches!(self.request, Request::ReadOverride));
        self.answer(Event::OverrideRead(wanted.map(hertz)));
        let hz = match self.request {
            Request::Tune(hz) => hz,
            ref other => panic!("{other:?}"),
        };
        self.answer(Event::Tuned(true));
        hz
    }

    /// Answers a whole pass up to the first poll of its dwell.
    fn dwell(&mut self, wanted: Option<f64>) -> u64 {
        let hz = self.tune(wanted);
        assert!(matches!(self.request, Request::EnterRx));
        self.answer(Event::EnteredRx(true));
        assert!(matches!(self.request, Request::StartDwell(f) if f64::from_bits(f.bits) as u64 == hz));
        self.answer(Event::DwellStarted);
        assert!(matches!(self.request, Request::PollStop));
        hz
    }

    /// Answers up to the next read of a dwell, with the deadline not yet passed.
    fn until_read(&mut self, wanted: Option<f64>) {
        self.answer(Event::StopPolled(false));
        self.answer(Event::OverrideRead(wanted.map(hertz)));
        if matches!(self.request, Request::CheckDeadline) {
            self.answer(Event::DeadlineChecked { elapsed_ns: 99, deadline_ns: 100 });
        }
        assert!(matches!(self.request, Request::Read));
    }

    /// Reads bytes and delivers what they hold.
    fn deliver(&mut self, wanted: Option<f64>, bytes: &[u8]) {
        self.until_read(wanted);
        self.answer(Event::Received(bytes.to_vec()));
        if matches!(self.request, Request::Deliver(_)) {
            self.answer(Event::Delivered(true));
        }
        assert!(matches!(self.request, Request::CheckReport));
        self.answer(Event::ReportChecked(0));
        assert!(matches!(self.request, Request::PollStop));
    }

    /// Ends a dwell on its deadline.
    fn pass_deadline(&mut self) {
        self.answer(Event::StopPolled(false));
        self.answer(Event::OverrideRead(None));
        assert!(matches!(self.request, Request::CheckDeadline));
        self.answer(Event::DeadlineChecked { elapsed_ns: 100, deadline_ns: 100 });
        assert!(matches!(self.request, Request::StopRx));
        self.answer(Event::RxStopped(true));
    }

    fn outcome(&self) -> Outcome {
        match self.request {
            Request::Finish(outcome) => outcome,
            ref other => panic!("{other:?}"),
        }
    }
}

#[test]
fn channels_are_visited_in_turn() {
    let mut scan = Scan::over(&[100e6, 200e6, 300.5e6]);
    let mut visited = Vec::new();
    for _ in 0..4 {
        visited.push(scan.dwell(None));
        scan.pass_deadline();
    }
    assert_eq!(visited, vec![100_000_000, 200_000_000, 300_500_000, 100_000_000]);
}

#[test]
fn a_packet_holds_what_was_read() {
    let mut scan = Scan::over(&[100e6, 200e6]);
    scan.dwell(None);
    scan.until_read(None);
    scan.answer(Event::Received(vec![0x80, 0x7F, 0x01, 0xFF, 0x05]));
    match &scan.request {
        Request::Deliver(packet) => {
            let samples: Vec<(i8, i8)> = packet.samples.iter().map(|s| (s.re, s.im)).collect();
            assert_eq!(samples, vec![(-128, 127), (1, -1)]);
            assert_eq!(packet.center_frequency_hz.bits, 100e6f64.to_bits());
            assert_eq!(packet.sample_rate_hz.bits, 16e6f64.to_bits());
            assert!(!packet.overrun);
        }
        other => panic!("{other:?}"),
    }
}

#[test]
fn a_read_without_a_whole_pair_delivers_nothing() {
    let mut scan = Scan::over(&[100e6]);
    scan.dwell(None);
    scan.until_read(None);
    scan.answer(Event::Received(vec![7]));
    assert!(matches!(scan.request, Request::CheckReport));
}

#[test]
fn a_single_channel_streams_without_a_deadline() {
    let mut scan = Scan::over(&[100e6]);
    scan.dwell(None);
    for _ in 0..100 {
        scan.answer(Event::StopPolled(false));
        scan.answer(Event::OverrideRead(None));
        assert!(matches!(scan.request, Request::Read));
        scan.answer(Event::Received(vec![1, 2]));
        scan.answer(Event::Delivered(true));
        scan.answer(Event::ReportChecked(59));
    }
}

#[test]
fn a_viewer_parks_the_scan_and_hopping_resumes_in_place() {
    let mut scan = Scan::over(&[100e6, 200e6, 300e6]);
    scan.dwell(None);
    scan.pass_deadline();
    // A viewer comes while 200 MHz is next.
    assert_eq!(scan.dwell(Some(915e6)), 915_000_000);
    for _ in 0..10 {
        scan.deliver(Some(915e6), &[1, 2, 3, 4]);
    }
    // The viewer changes to another frequency.
    scan.answer(Event::StopPolled(false));
    scan.answer(Event::OverrideRead(Some(hertz(433e6))));
    assert!(matches!(scan.request, Request::StopRx));
    scan.answer(Event::RxStopped(true));
    assert_eq!(scan.dwell(Some(433e6)), 433_000_000);
    // The viewer goes.
    scan.answer(Event::StopPolled(false));
    scan.answer(Event::OverrideRead(None));
    assert!(matches!(scan.request, Request::StopRx));
    scan.answer(Event::RxStopped(true));
    assert_eq!(scan.dwell(None), 200_000_000);
}

#[test]
fn a_viewer_of_the_current_channel_is_parked_at_once() {
    let mut scan = Scan::over(&[100e6, 200e6]);
    scan.dwell(None);
    scan.answer(Event::StopPolled(false));
    scan.answer(Event::OverrideRead(Some(hertz(100e6))));
    assert!(matches!(scan.request, Request::StopRx));
    scan.answer(Event::RxStopped(true));
    assert_eq!(scan.dwell(Some(100e6)), 100_000_000);
    scan.until_read(Some(100e6));
}

#[test]
fn a_viewer_of_another_channel_waits_for_the_deadline() {
    let mut scan = Scan::over(&[100e6, 200e6]);
    scan.dwell(None);
    scan.answer(Event::StopPolled(false));
    scan.answer(Event::OverrideRead(Some(hertz(200e6))));
    assert!(matches!(scan.request, Request::CheckDeadline));
}

#[test]
fn an_override_that_is_no_number_never_holds() {
    let mut scan = Scan::over(&[100e6, 200e6]);
    assert_eq!(scan.tune(Some(f64::NAN)), 0);
    scan.answer(Event::EnteredRx(true));
    scan.answer(Event::DwellStarted);
    scan.answer(Event::StopPolled(false));
    scan.answer(Event::OverrideRead(Some(hertz(f64::NAN))));
    assert!(matches!(scan.request, Request::StopRx));
}

#[test]
fn a_device_that_cannot_stream_is_given_up() {
    let mut scan = Scan::over(&[100e6, 200e6]);
    for n in 0..MAX_CONSECUTIVE_STREAM_FAILURES {
        assert_eq!(scan.scanner.stream_failures(), n);
        scan.dwell(None);
        scan.until_read(None);
        scan.answer(Event::ReadFailed);
        assert!(matches!(scan.request, Request::StopRx));
        scan.answer(Event::RxStopped(true));
    }
    scan.answer(Event::StopPolled(false));
    assert!(matches!(scan.outcome(), Outcome::StreamFailures(20)));
    assert!(!scan.scanner.accepts(&Event::StopPolled(false)));
}

#[test]
fn a_delivered_packet_clears_read_failures() {
    let mut scan = Scan::over(&[100e6]);
    for _ in 0..MAX_CONSECUTIVE_STREAM_FAILURES * 3 {
        scan.dwell(None);
        scan.deliver(None, &[1, 2]);
        assert_eq!(scan.scanner.stream_failures(), 0);
        scan.until_read(None);
        scan.answer(Event::ReadFailed);
        assert_eq!(scan.scanner.stream_failures(), 1);
        scan.answer(Event::RxStopped(true));
    }
}

#[test]
fn a_read_without_samples_does_not_clear_read_failures() {
    let mut scan = Scan::over(&[100e6]);
    scan.dwell(None);
    scan.until_read(None);
    scan.answer(Event::ReadFailed);
    scan.answer(Event::RxStopped(true));
    scan.dwell(None);
    scan.deliver(None, &[]);
    assert_eq!(scan.scanner.stream_failures(), 1);
}

#[test]
fn ten_failed_sweeps_give_the_device_up() {
    let mut scan = Scan::over(&[100e6, 200e6, 300e6]);
    let mut tunes: Vec<u64> = Vec::new();
    let mut pauses = 0;
    while !matches!(scan.request, Request::Finish(_)) {
        match scan.request {
            Request::PollStop => scan.answer(Event::StopPolled(false)),
            Request::ReadOverride => scan.answer(Event::OverrideRead(None)),
            Request::Tune(hz) => {
                tunes.push(hz);
                scan.answer(Event::Tuned(false));
            }
            Request::Pause(ms) => {
                assert_eq!(ms, SWEEP_FAILURE_BACKOFF_MS);
                pauses += 1;
                scan.answer(Event::Paused);
            }
            ref other => panic!("{other:?}"),
        }
    }
    assert!(matches!(scan.outcome(), Outcome::SweepFailures(10)));
    assert_eq!(tunes.len(), 3 * MAX_CONSECUTIVE_SWEEP_FAILURES as usize);
    assert_eq!(&tunes[..4], &[100_000_000, 200_000_000, 300_000_000, 100_000_000]);
    assert_eq!(pauses, 9);
}

#[test]
fn a_lost_device_is_replaced_and_set_again() {
    let mut scan = Scan::over(&[100e6, 200e6]);
    scan.tune(None);
    scan.answer(Event::EnteredRx(false));
    assert!(matches!(scan.request, Request::Pause(ms) if ms == REOPEN_BACKOFF_MS));
    scan.answer(Event::Paused);
    assert!(matches!(scan.request, Request::OpenDevice));
    scan.answer(Event::Opened(true));
    let mut settings = 0;
    while let Request::Apply(setting) = scan.request {
        if settings == 0 {
            assert!(matches!(
                setting,
                DeviceSetting::SampleRate { hz: 16_000_000, divider: 1, .. }
            ));
        }
        settings += 1;
        // A refused setting does not stop the others.
        scan.answer(Event::Applied(settings % 2 == 0));
    }
    assert_eq!(settings, SETTING_COUNT);
    assert_eq!(scan.dwell(None), 200_000_000);
}

#[test]
fn a_device_that_stays_away_is_looked_for_on_every_pass() {
    let mut scan = Scan::over(&[100e6, 200e6]);
    scan.tune(None);
    scan.answer(Event::EnteredRx(false));
    scan.answer(Event::Paused);
    scan.answer(Event::Opened(false));
    // The next pass has no device: it opens one before it tunes.
    scan.answer(Event::StopPolled(false));
    assert!(matches!(scan.request, Request::OpenDevice));
    scan.answer(Event::Opened(false));
    assert!(matches!(scan.request, Request::Pause(ms) if ms == REOPEN_BACKOFF_MS));
    scan.answer(Event::Paused);
    // Two failed passes are a sweep of two channels.
    scan.answer(Event::StopPolled(false));
    assert!(matches!(scan.request, Request::Pause(ms) if ms == SWEEP_FAILURE_BACKOFF_MS));
    scan.answer(Event::Paused);
    assert!(matches!(scan.request, Request::OpenDevice));
    scan.answer(Event::Opened(true));
    for _ in 0..SETTING_COUNT {
        assert!(matches!(scan.request, Request::Apply(_)));
        scan.answer(Event::Applied(true));
    }
    assert!(matches!(scan.request, Request::ReadOverride));
}

#[test]
fn entering_receive_mode_clears_failed_passes() {
    let mut scan = Scan::over(&[100e6]);
    for _ in 0..50 {
        scan.answer(Event::StopPolled(false));
        if matches!(scan.request, Request::Pause(_)) {
            scan.answer(Event::Paused);
        }
        scan.answer(Event::OverrideRead(None));
        scan.answer(Event::Tuned(false));
        // The pause for the failed sweep, then a pass that works.
        scan.answer(Event::StopPolled(false));
        assert!(matches!(scan.request, Request::Pause(_)));
        scan.answer(Event::Paused);
        scan.answer(Event::OverrideRead(None));
        scan.answer(Event::Tuned(true));
        scan.answer(Event::EnteredRx(true));
        scan.answer(Event::DwellStarted);
        scan.answer(Event::StopPolled(false));
        scan.answer(Event::OverrideRead(Some(hertz(100e6))));
        scan.answer(Event::RxStopped(true));
    }
}

#[test]
fn a_stop_ends_the_scan() {
    let mut scan = Scan::over(&[100e6, 200e6]);
    scan.answer(Event::StopPolled(true));
    assert!(matches!(scan.outcome(), Outcome::Stopped));

    let mut scan = Scan::over(&[100e6, 200e6]);
    scan.dwell(None);
    scan.answer(Event::StopPolled(true));
    assert!(matches!(scan.request, Request::StopRx));
    scan.answer(Event::RxStopped(true));
    scan.answer(Event::StopPolled(true));
    assert!(matches!(scan.outcome(), Outcome::Stopped));
}

#[test]
fn a_device_that_cannot_leave_receive_mode_ends_the_scan() {
    let mut scan = Scan::over(&[100e6, 200e6]);
    scan.dwell(None);
    scan.answer(Event::StopPolled(true));
    scan.answer(Event::RxStopped(false));
    assert!(matches!(scan.outcome(), Outcome::StopRxFailed));
}

#[test]
fn a_receiver_that_is_gone_ends_the_scan() {
    for left_rx in [true, false] {
        let mut scan = Scan::over(&[100e6, 200e6]);
        scan.dwell(None);
        scan.until_read(None);
        scan.answer(Event::Received(vec![1, 2]));
        scan.answer(Event::Delivered(false));
        assert!(matches!(scan.request, Request::StopRx));
        scan.answer(Event::RxStopped(left_rx));
        assert!(matches!(scan.outcome(), Outcome::ReceiverGone));
    }
}

#[test]
fn hops_are_reported_every_minute() {
    let mut scan = Scan::over(&[100e6, 200e6]);
    for _ in 0..3 {
        scan.dwell(None);
        scan.pass_deadline();
    }
    scan.dwell(None);
    scan.until_read(None);
    scan.answer(Event::Received(vec![]));
    scan.answer(Event::ReportChecked(60));
    assert!(matches!(scan.request, Request::Report { switches: 3, channels: 2 }));
    scan.answer(Event::Reported);
    assert!(matches!(scan.request, Request::PollStop));
    scan.until_read(None);
    scan.answer(Event::Received(vec![]));
    scan.answer(Event::ReportChecked(61));
    assert!(matches!(scan.request, Request::Report { switches: 0, channels: 2 }));
}

#[test]
fn giving_up_on_a_dead_stream_is_short_and_paced() {
    let mut scan = Scan::over(&[100e6, 200e6]);
    let mut answers = 0;
    let mut paused_ms = 0;
    let mut failed_reads = 0;
    let mut paused_since_failure = true;
    loop {
        let event = match scan.request {
            Request::PollStop => Event::StopPolled(false),
            Request::Pause(ms) => {
                paused_ms += ms;
                paused_since_failure = true;
                Event::Paused
            }
            Request::ReadOverride => Event::OverrideRead(None),
            Request::Tune(_) => {
                assert!(paused_since_failure);
                Event::Tuned(true)
            }
            Request::EnterRx => Event::EnteredRx(true),
            Request::StartDwell(_) => Event::DwellStarted,
            Request::CheckDeadline => Event::DeadlineChecked { elapsed_ns: 99, deadline_ns: 100 },
            Request::Read => {
                failed_reads += 1;
                paused_since_failure = false;
                Event::ReadFailed
            }
            Request::StopRx => Event::RxStopped(true),
            Request::Finish(outcome) => {
                assert!(matches!(outcome, Outcome::StreamFailures(20)));
                break;
            }
            ref other => panic!("{other:?}"),
        };
        scan.answer(event);
        answers += 1;
    }
    assert_eq!(failed_reads, 20);
    assert_eq!(paused_ms, 950);
    assert!(answers <= 221, "{answers}");
}

#[test]
fn the_stop_flag_is_read_again_even_when_everything_fails() {
    let mut scan = Scan::over(&[100e6, 200e6]);
    let mut since_poll = 0;
    let mut longest = 0;
    let mut opened = false;
    loop {
        let event = match scan.request {
            Request::PollStop => {
                since_poll = 0;
                Event::StopPolled(false)
            }
            Request::Pause(_) => Event::Paused,
            Request::OpenDevice => {
                opened = !opened;
                Event::Opened(opened)
            }
            Request::Apply(_) => Event::Applied(false),
            Request::ReadOverride => Event::OverrideRead(None),
            Request::Tune(_) => Event::Tuned(true),
            Request::EnterRx => Event::EnteredRx(false),
            Request::Finish(outcome) => {
                assert!(matches!(outcome, Outcome::SweepFailures(10)));
                break;
            }
            ref other => panic!("{other:?}"),
        };
        if !matches!(event, Event::StopPolled(_)) {
            since_poll += 1;
            longest = if since_poll > longest { since_poll } else { longest };
        }
        scan.answer(event);
    }
    assert!(longest <= 18, "{longest}");
}

#[test]
fn packets_follow_the_reads_and_name_the_tuned_frequency() {
    let mut scan = Scan::over(&[100e6, 200e6]);
    let mut delivered: Vec<(f64, usize)> = Vec::new();
    for reads in [vec![4usize, 1, 7], vec![0, 2]] {
        scan.dwell(None);
        for bytes in reads {
            scan.until_read(None);
            scan.answer(Event::Received(vec![0; bytes]));
            if let Request::Deliver(packet) = &scan.request {
                let frequency = f64::from_bits(packet.center_frequency_hz.bits);
                delivered.push((frequency, packet.samples.len()));
                scan.answer(Event::Delivered(true));
            }
            scan.answer(Event::ReportChecked(0));
        }
        scan.pass_deadline();
    }
    assert_eq!(delivered, vec![(100e6, 2), (100e6, 3), (200e6, 1)]);
}

#[test]
fn hopping_resumes_in_place_after_a_read_failure_under_a_viewer() {
    let mut scan = Scan::over(&[100e6, 200e6, 300e6]);
    scan.dwell(None);
    scan.pass_deadline();
    scan.dwell(Some(915e6));
    scan.until_read(Some(915e6));
    scan.answer(Event::ReadFailed);
    scan.answer(Event::RxStopped(true));
    // The viewer has gone by the time the next pass chooses.
    assert_eq!(scan.dwell(None), 200_000_000);
}

#[test]
fn a_failed_tuning_under_a_viewer_moves_the_hop_list() {
    let mut scan = Scan::over(&[100e6, 200e6, 300e6]);
    scan.answer(Event::StopPolled(false));
    scan.answer(Event::OverrideRead(Some(hertz(915e6))));
    scan.answer(Event::Tuned(false));
    assert_eq!(scan.dwell(None), 200_000_000);
}

#[test]
fn a_pending_read_failure_does_not_stop_sweeps_from_being_counted() {
    let mut scan = Scan::over(&[100e6, 200e6]);
    scan.dwell(None);
    scan.until_read(None);
    scan.answer(Event::ReadFailed);
    scan.answer(Event::RxStopped(true));
    let mut failed = 0;
    while !matches!(scan.request, Request::Finish(_)) {
        let event = match scan.request {
            Request::PollStop => Event::StopPolled(false),
            Request::Pause(_) => Event::Paused,
            Request::ReadOverride => Event::OverrideRead(None),
            Request::Tune(_) => {
                failed += 1;
                Event::Tuned(false)
            }
            ref other => panic!("{other:?}"),
        };
        scan.answer(event);
    }
    assert!(matches!(scan.outcome(), Outcome::SweepFailures(10)));
    assert_eq!(failed, 20);
    assert_eq!(scan.scanner.stream_failures(), 1);
}

#[test]
fn a_deadline_counts_from_the_moment_it_is_reached() {
    for (elapsed_ns, ends) in [(0u128, false), (49, false), (50, true), (51, true)] {
        let mut scan = Scan::over(&[100e6, 200e6]);
        scan.dwell(None);
        scan.answer(Event::StopPolled(false));
        scan.answer(Event::OverrideRead(None));
        scan.answer(Event::DeadlineChecked { elapsed_ns, deadline_ns: 50 });
        assert_eq!(matches!(scan.request, Request::StopRx), ends);
        assert_eq!(matches!(scan.request, Request::Read), !ends);
    }
}

//! The capture loop, run one answer at a time.
use crate::hertz::Hertz;
use crate::iq::{decode, IqPacket};
use crate::model::{
    abandoned, accepts, initial, inv, next, request, Device, Dwell, Event, EventView, Outcome,
    Phase, Request, RequestView, ScanState, MAX_CONSECUTIVE_STREAM_FAILURES,
    MAX_CONSECUTIVE_SWEEP_FAILURES, REOPEN_BACKOFF_MS, REPORT_INTERVAL_SECS,
    STREAM_FAILURE_BACKOFF_MS, SWEEP_FAILURE_BACKOFF_MS,
};
use crate::source::{Plan, Startup, SETTING_COUNT};
use vstd::prelude::*;

verus! {

/// Should the device be given up after this many read failures in a row?
pub fn should_abandon_device(consecutive_stream_failures: u32) -> (r: bool)
    ensures
        r == abandoned(consecutive_stream_failures as int),
{
    consecutive_stream_failures >= MAX_CONSECUTIVE_STREAM_FAILURES
}

/// The capture loop between two requests.
#[derive(Debug)]
pub struct Scanner {
    plan: Plan,
    channel_idx: usize,
    channel_switches: u64,
    consecutive_failures: usize,
    consecutive_sweep_failures: u32,
    consecutive_stream_failures: u32,
    device: Device,
    phase: Phase,
}

impl View for Scanner {
    type V = ScanState;

    closed spec fn view(&self) -> ScanState {
        ScanState {
            source: self.plan.source,
            channels: self.plan.channels@,
            sample_rate: self.plan.sample_rate,
            channel_idx: self.channel_idx as int,
            channel_switches: self.channel_switches as int,
            failures: self.consecutive_failures as int,
            sweep_failures: self.consecutive_sweep_failures as int,
            stream_failures: self.consecutive_stream_failures as int,
            device: self.device,
            phase: self.phase,
        }
    }
}

impl Scanner {
    /// The loop at its start, with the device that the start-up opened and set, and
    /// the first thing that it asks for.
    pub fn new(startup: Startup) -> (r: (Scanner, Request))
        requires
            startup.wf(),
            startup.phase is Ready,
        ensures
            r.0@ == initial(
                startup.plan.source,
                startup.plan.channels@,
                startup.plan.sample_rate,
            ),
            inv(r.0@),
            r.1@ == RequestView::PollStop,
    {
        let scanner = Scanner {
            plan: startup.plan,
            channel_idx: 0,
            channel_switches: 0,
            consecutive_failures: 0,
            consecutive_sweep_failures: 0,
            consecutive_stream_failures: 0,
            device: Device::Idle,
            phase: Phase::PassStart,
        };
        (scanner, Request::PollStop)
    }

    /// Read failures since the last packet that was delivered.
    pub fn stream_failures(&self) -> (r: u32)
        ensures
            r == self@.stream_failures,
    {
        self.consecutive_stream_failures
    }

    /// Whether an event answers what the loop waits for.
    pub fn accepts(&self, event: &Event) -> (r: bool)
        ensures
            r == accepts(self@.phase, event@),
    {
        match (self.phase, event) {
            (Phase::PassStart, Event::StopPolled(_)) => true,
            (Phase::DwellPoll(_), Event::StopPolled(_)) => true,
            (Phase::StreamPause, Event::Paused) => true,
            (Phase::SweepPause, Event::Paused) => true,
            (Phase::ReopenPause, Event::Paused) => true,
            (Phase::RecoverPause, Event::Paused) => true,
            (Phase::Reopen, Event::Opened(_)) => true,
            (Phase::Recover, Event::Opened(_)) => true,
            (Phase::ReopenSetting(_), Event::Applied(_)) => true,
            (Phase::RecoverSetting(_), Event::Applied(_)) => true,
            (Phase::ChooseFrequency, Event::OverrideRead(_)) => true,
            (Phase::DwellOverride(_), Event::OverrideRead(_)) => true,
            (Phase::Tuning(_), Event::Tuned(_)) => true,
            (Phase::EnteringRx(_), Event::EnteredRx(_)) => true,
            (Phase::DwellStart(_), Event::DwellStarted) => true,
            (Phase::DwellDeadline(_), Event::DeadlineChecked { .. }) => true,
            (Phase::Reading(_), Event::Received(_)) => true,
            (Phase::Reading(_), Event::ReadFailed) => true,
            (Phase::Delivering(_), Event::Delivered(_)) => true,
            (Phase::ReportCheck(_), Event::ReportChecked(_)) => true,
            (Phase::Reporting(_), Event::Reported) => true,
            (Phase::Stopping(_), Event::RxStopped(_)) => true,
            (Phase::Disconnecting, Event::RxStopped(_)) => true,
            _ => false,
        }
    }

    /// Takes in what came of the last request, and returns what is to be done next.
    pub fn step(&mut self, event: Event) -> (r: Request)
        requires
            inv(old(self)@),
            accepts(old(self)@.phase, event@),
        ensures
            final(self)@ == next(old(self)@, event@),
            inv(final(self)@),
            r@ == request(final(self)@, event@),
    {
        let ghost before = self@;
        let ghost answer = event@;
        proof {
            crate::laws::law_invariant_is_kept(before, answer);
        }
        match (self.phase, event) {
            (Phase::PassStart, Event::StopPolled(stop)) => self.begin_pass(stop),
            (Phase::StreamPause, _) => self.check_sweep(),
            (Phase::SweepPause, _) => {
                self.consecutive_failures = 0;
                self.clear_pass();
            },
            (Phase::Reopen, Event::Opened(found)) => {
                if found {
                    self.device = Device::Idle;
                    self.phase = Phase::ReopenSetting(0);
                } else {
                    self.phase = Phase::ReopenPause;
                }
            },
            (Phase::ReopenSetting(index), _) => {
                if index + 1 < SETTING_COUNT {
                    self.phase = Phase::ReopenSetting(index + 1);
                } else {
                    self.phase = Phase::ChooseFrequency;
                }
            },
            (Phase::ReopenPause, _) => self.fail_pass(),
            (Phase::ChooseFrequency, Event::OverrideRead(wanted)) => {
                self.phase = Phase::Tuning(self.choose_dwell(wanted));
            },
            (Phase::Tuning(dwell), Event::Tuned(ok)) => {
                if ok {
                    self.phase = Phase::EnteringRx(dwell);
                } else {
                    self.fail_pass();
                }
            },
            (Phase::EnteringRx(dwell), Event::EnteredRx(ok)) => {
                if ok {
                    self.consecutive_failures = 0;
                    self.consecutive_sweep_failures = 0;
                    self.device = Device::Receiving;
                    self.phase = Phase::DwellStart(dwell);
                } else {
                    self.count_failure();
                    self.device = Device::Absent;
                    self.phase = Phase::RecoverPause;
                }
            },
            (Phase::RecoverPause, _) => {
                self.phase = Phase::Recover;
            },
            (Phase::Recover, Event::Opened(found)) => {
                if found {
                    self.device = Device::Idle;
                    self.phase = Phase::RecoverSetting(0);
                } else {
                    self.hop();
                    self.phase = Phase::PassStart;
                }
            },
            (Phase::RecoverSetting(index), _) => {
                if index + 1 < SETTING_COUNT {
                    self.phase = Phase::RecoverSetting(index + 1);
                } else {
                    self.hop();
                    self.phase = Phase::PassStart;
                }
            },
            (Phase::DwellStart(dwell), _) => {
                self.phase = Phase::DwellPoll(dwell);
            },
            (Phase::DwellPoll(dwell), Event::StopPolled(stop)) => {
                if stop {
                    self.phase = Phase::Stopping(dwell);
                } else {
                    self.phase = Phase::DwellOverride(dwell);
                }
            },
            (Phase::DwellOverride(dwell), Event::OverrideRead(wanted)) => {
                self.phase = self.see_override(dwell, wanted);
            },
            (Phase::DwellDeadline(dwell), Event::DeadlineChecked { elapsed_ns, deadline_ns }) => {
                if elapsed_ns >= deadline_ns {
                    self.phase = Phase::Stopping(dwell);
                } else {
                    self.phase = Phase::Reading(dwell);
                }
            },
            (Phase::Reading(dwell), Event::Received(bytes)) => {
                let samples = decode(&bytes);
                if samples.len() > 0 {
                    self.phase = Phase::Delivering(dwell);
                    return Request::Deliver(
                        IqPacket {
                            samples,
                            center_frequency_hz: dwell.frequency,
                            sample_rate_hz: self.plan.sample_rate,
                            overrun: false,
                        },
                    );
                }
                self.phase = Phase::ReportCheck(dwell);
            },
            (Phase::Reading(dwell), _) => {
                self.consecutive_stream_failures = self.consecutive_stream_failures + 1;
                self.phase = Phase::Stopping(dwell);
            },
            (Phase::Delivering(dwell), Event::Delivered(ok)) => {
                if ok {
                    self.consecutive_stream_failures = 0;
                    self.phase = Phase::ReportCheck(dwell);
                } else {
                    self.phase = Phase::Disconnecting;
                }
            },
            (Phase::ReportCheck(dwell), Event::ReportChecked(secs)) => {
                if secs >= REPORT_INTERVAL_SECS {
                    self.phase = Phase::Reporting(dwell);
                } else {
                    self.phase = Phase::DwellPoll(dwell);
                }
            },
            (Phase::Reporting(dwell), _) => {
                self.channel_switches = 0;
                self.phase = Phase::DwellPoll(dwell);
            },
            (Phase::Stopping(dwell), Event::RxStopped(ok)) => self.end_dwell(dwell, ok),
            (Phase::Disconnecting, Event::RxStopped(ok)) => {
                self.device = if ok {
                    Device::Idle
                } else {
                    Device::Absent
                };
                self.phase = Phase::Finished(Outcome::ReceiverGone);
            },
            _ => {},
        }
        assert(self@ == next(before, answer));
        self.pending()
    }

    /// What the phase asks for, where it is no packet.
    fn pending(&self) -> (r: Request)
        requires
            inv(self@),
            !(self@.phase is Delivering),
        ensures
            forall|event: EventView| r@ == #[trigger] request(self@, event),
    {
        match self.phase {
            Phase::PassStart | Phase::DwellPoll(_) => Request::PollStop,
            Phase::StreamPause => Request::Pause(STREAM_FAILURE_BACKOFF_MS),
            Phase::SweepPause => Request::Pause(SWEEP_FAILURE_BACKOFF_MS),
            Phase::ReopenPause | Phase::RecoverPause => Request::Pause(REOPEN_BACKOFF_MS),
            Phase::Reopen | Phase::Recover => Request::OpenDevice,
            Phase::ReopenSetting(index) | Phase::RecoverSetting(index) => Request::Apply(
                self.plan.source.setting(self.plan.sample_rate, index),
            ),
            Phase::ChooseFrequency | Phase::DwellOverride(_) => Request::ReadOverride,
            Phase::Tuning(dwell) => Request::Tune(dwell.frequency.whole_u64()),
            Phase::EnteringRx(_) => Request::EnterRx,
            Phase::DwellStart(dwell) => Request::StartDwell(dwell.frequency),
            Phase::DwellDeadline(_) => Request::CheckDeadline,
            Phase::Reading(_) | Phase::Delivering(_) => Request::Read,
            Phase::ReportCheck(_) => Request::CheckReport,
            Phase::Reporting(_) => Request::Report {
                switches: self.channel_switches,
                channels: self.plan.channels.len(),
            },
            Phase::Stopping(_) | Phase::Disconnecting => Request::StopRx,
            Phase::Finished(outcome) => Request::Finish(outcome),
        }
    }

    fn begin_pass(&mut self, stop: bool)
        requires
            inv(old(self)@),
            old(self)@.phase is PassStart,
        ensures
            final(self)@ == next(old(self)@, EventView::StopPolled(stop)),
    {
        if stop {
            self.phase = Phase::Finished(Outcome::Stopped);
        } else if should_abandon_device(self.consecutive_stream_failures) {
            self.phase = Phase::Finished(
                Outcome::StreamFailures(self.consecutive_stream_failures),
            );
        } else if self.consecutive_stream_failures > 0 {
            self.phase = Phase::StreamPause;
        } else {
            self.check_sweep();
        }
    }

    fn check_sweep(&mut self)
        requires
            inv(old(self)@),
            old(self)@.sweep_failures < MAX_CONSECUTIVE_SWEEP_FAILURES,
        ensures
            final(self)@ == old(self)@.sweep_checked(),
    {
        if self.consecutive_failures >= self.plan.channels.len() {
            self.consecutive_sweep_failures = self.consecutive_sweep_failures + 1;
            if self.consecutive_sweep_failures >= MAX_CONSECUTIVE_SWEEP_FAILURES {
                self.phase = Phase::Finished(
                    Outcome::SweepFailures(self.consecutive_sweep_failures),
                );
            } else {
                self.phase = Phase::SweepPause;
            }
        } else {
            self.clear_pass();
        }
    }

    fn clear_pass(&mut self)
        ensures
            final(self)@ == old(self)@.pass_cleared(),
    {
        self.phase = match self.device {
            Device::Absent => Phase::Reopen,
            _ => Phase::ChooseFrequency,
        };
    }

    fn hop(&mut self)
        requires
            inv(old(self)@),
        ensures
            final(self)@ == old(self)@.hopped(),
    {
        let num_channels: usize = self.plan.channels.len();
        self.channel_idx = (self.channel_idx + 1) % num_channels;
    }

    fn count_failure(&mut self)
        requires
            old(self)@.failures < old(self)@.channels.len(),
        ensures
            final(self)@ == (ScanState { failures: old(self)@.failures + 1, ..old(self)@ }),
    {
        let num_channels: usize = self.plan.channels.len();
        assert(self.consecutive_failures < num_channels);
        self.consecutive_failures = self.consecutive_failures + 1;
    }

    fn fail_pass(&mut self)
        requires
            inv(old(self)@),
            old(self)@.failures < old(self)@.channels.len(),
        ensures
            final(self)@ == old(self)@.pass_failed(),
    {
        self.hop();
        self.count_failure();
        self.phase = Phase::PassStart;
    }

    fn choose_dwell(&self, wanted: Option<Hertz>) -> (r: Dwell)
        requires
            inv(self@),
        ensures
            r == self@.chosen(wanted),
    {
        match wanted {
            Some(frequency) => Dwell { frequency, parked: true },
            None => Dwell { frequency: self.plan.channels[self.channel_idx], parked: false },
        }
    }

    fn see_override(&self, dwell: Dwell, wanted: Option<Hertz>) -> (r: Phase)
        ensures
            r == self@.override_seen(dwell, wanted),
    {
        let still_wanted = match wanted {
            Some(frequency) => frequency.equals(dwell.frequency),
            None => false,
        };
        if dwell.parked {
            if still_wanted {
                Phase::Reading(dwell)
            } else {
                Phase::Stopping(dwell)
            }
        } else if still_wanted {
            Phase::Stopping(dwell)
        } else if self.plan.channels.len() > 1 {
            Phase::DwellDeadline(dwell)
        } else {
            Phase::Reading(dwell)
        }
    }

    fn end_dwell(&mut self, dwell: Dwell, ok: bool)
        requires
            inv(old(self)@),
            old(self)@.phase == Phase::Stopping(dwell),
        ensures
            final(self)@ == next(old(self)@, EventView::RxStopped(ok)),
    {
        if !ok {
            self.device = Device::Absent;
            self.phase = Phase::Finished(Outcome::StopRxFailed);
        } else {
            if !dwell.parked {
                self.hop();
                self.channel_switches = self.channel_switches.wrapping_add(1);
            }
            self.device = Device::Idle;
            self.phase = Phase::PassStart;
        }
    }
}

} // verus!

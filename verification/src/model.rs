//! The capture loop as a state machine: what it asks for, what it is told, and
//! the state that it goes to.
//!
//! The loop makes passes. A pass polls the stop flag, waits out earlier failures,
//! gets a device, reads the viewer's override, tunes and enters receive mode; it
//! then dwells on that frequency, reading samples, until something ends the dwell.
use crate::hertz::Hertz;
use crate::iq::{IqPacket, IqPacketView};
use crate::rate::usable_rate;
use crate::source::{DeviceSetting, HackRfSource, SETTING_COUNT};
use vstd::prelude::*;

verus! {

/// After this many sweeps in a row in which every channel failed to tune or to
/// enter receive mode, the device is given up. One that was unplugged or is
/// wedged is then a terminal error instead of an endless retry.
pub const MAX_CONSECUTIVE_SWEEP_FAILURES: u32 = 10;

/// Read failures in a row that are tolerated before the device is given up.
///
/// This is not the count of failed sweeps, which is reset as soon as the device
/// tunes and enters receive mode, before a sample is read. A device that tunes
/// but cannot stream resets that count on every pass; this one is reset only by
/// a packet that was delivered.
pub const MAX_CONSECUTIVE_STREAM_FAILURES: u32 = 20;

/// Pause before the retune that follows a read failure, in milliseconds. The
/// retune has no delay of its own.
pub const STREAM_FAILURE_BACKOFF_MS: u64 = 50;

/// Pause after a sweep in which every channel failed, in milliseconds.
pub const SWEEP_FAILURE_BACKOFF_MS: u64 = 500;

/// Pause around a failed attempt to get a device, in milliseconds.
pub const REOPEN_BACKOFF_MS: u64 = 100;

/// Seconds between two reports of the scanning speed.
pub const REPORT_INTERVAL_SECS: u64 = 60;

/// Where the device is.
#[derive(Clone, Copy, Debug)]
pub enum Device {
    /// There is none.
    Absent,
    /// Open, and not receiving.
    Idle,
    /// In receive mode.
    Receiving,
}

/// One stay on a frequency.
#[derive(Clone, Copy, Debug)]
pub struct Dwell {
    /// The frequency tuned to.
    pub frequency: Hertz,
    /// Whether a viewer asked for it, so that the hop list is bypassed.
    pub parked: bool,
}

/// Why the loop ended.
#[derive(Clone, Copy, Debug)]
pub enum Outcome {
    /// The stop flag was set.
    Stopped,
    /// This many read failures in a row, with no packet delivered between them.
    StreamFailures(u32),
    /// This many sweeps in a row in which every channel failed.
    SweepFailures(u32),
    /// Nobody receives packets any more.
    ReceiverGone,
    /// The device could not leave receive mode.
    StopRxFailed,
}

/// What the loop waits for.
#[derive(Clone, Copy, Debug)]
pub enum Phase {
    /// The stop flag, at the start of a pass.
    PassStart,
    /// The pause after a read failure.
    StreamPause,
    /// The pause after a failed sweep.
    SweepPause,
    /// A device, where there is none at the start of a pass.
    Reopen,
    /// A setting of the device just reopened.
    ReopenSetting(usize),
    /// The pause after no device could be reopened.
    ReopenPause,
    /// The viewer's override, to choose the frequency.
    ChooseFrequency,
    /// The device to tune.
    Tuning(Dwell),
    /// The device to enter receive mode.
    EnteringRx(Dwell),
    /// The pause after receive mode was refused, which costs the device.
    RecoverPause,
    /// A device in place of the lost one.
    Recover,
    /// A setting of the device in place of the lost one.
    RecoverSetting(usize),
    /// The dwell's clock to be started.
    DwellStart(Dwell),
    /// The stop flag, before a read.
    DwellPoll(Dwell),
    /// The viewer's override, before a read.
    DwellOverride(Dwell),
    /// The dwell's deadline, before a read.
    DwellDeadline(Dwell),
    /// Bytes from the device.
    Reading(Dwell),
    /// A packet to be handed over.
    Delivering(Dwell),
    /// The time since the last report.
    ReportCheck(Dwell),
    /// A report to be made.
    Reporting(Dwell),
    /// The device to leave receive mode at the end of a dwell.
    Stopping(Dwell),
    /// The device to leave receive mode after the receiver has gone.
    Disconnecting,
    /// Nothing.
    Finished(Outcome),
}

/// What the loop asks for.
#[derive(Debug)]
pub enum Request {
    /// Read the stop flag.
    PollStop,
    /// Sleep for so many milliseconds.
    Pause(u64),
    /// Open a device.
    OpenDevice,
    /// Apply a setting to the device. The loop goes on whether or not it is refused.
    Apply(DeviceSetting),
    /// Read which frequency a viewer wants, if one does.
    ReadOverride,
    /// Tune the device to so many hertz.
    Tune(u64),
    /// Put the device into receive mode.
    EnterRx,
    /// Note the time as the start of a dwell on this frequency.
    StartDwell(Hertz),
    /// Read the time and the deadline of the dwell, both from the dwell's start.
    CheckDeadline,
    /// Read bytes from the device.
    Read,
    /// Hand a packet to the receiver.
    Deliver(IqPacket),
    /// Read how long ago the last report was.
    CheckReport,
    /// Report the hops since the last report and the number of channels, and note
    /// the time.
    Report { switches: u64, channels: usize },
    /// Take the device out of receive mode.
    StopRx,
    /// End the loop.
    Finish(Outcome),
}

/// What a request holds.
pub enum RequestView {
    PollStop,
    Pause(u64),
    OpenDevice,
    Apply(DeviceSetting),
    ReadOverride,
    Tune(u64),
    EnterRx,
    StartDwell(Hertz),
    CheckDeadline,
    Read,
    Deliver(IqPacketView),
    CheckReport,
    Report { switches: u64, channels: nat },
    StopRx,
    Finish(Outcome),
}

impl View for Request {
    type V = RequestView;

    open spec fn view(&self) -> RequestView {
        match *self {
            Request::PollStop => RequestView::PollStop,
            Request::Pause(ms) => RequestView::Pause(ms),
            Request::OpenDevice => RequestView::OpenDevice,
            Request::Apply(setting) => RequestView::Apply(setting),
            Request::ReadOverride => RequestView::ReadOverride,
            Request::Tune(hz) => RequestView::Tune(hz),
            Request::EnterRx => RequestView::EnterRx,
            Request::StartDwell(frequency) => RequestView::StartDwell(frequency),
            Request::CheckDeadline => RequestView::CheckDeadline,
            Request::Read => RequestView::Read,
            Request::Deliver(packet) => RequestView::Deliver(packet@),
            Request::CheckReport => RequestView::CheckReport,
            Request::Report { switches, channels } => RequestView::Report {
                switches,
                channels: channels as nat,
            },
            Request::StopRx => RequestView::StopRx,
            Request::Finish(outcome) => RequestView::Finish(outcome),
        }
    }
}

/// What came of a request.
#[derive(Debug)]
pub enum Event {
    /// Whether the stop flag is set.
    StopPolled(bool),
    /// The pause is over.
    Paused,
    /// Whether a device was opened.
    Opened(bool),
    /// Whether the setting was applied.
    Applied(bool),
    /// The frequency that a viewer wants.
    OverrideRead(Option<Hertz>),
    /// Whether the device was tuned.
    Tuned(bool),
    /// Whether the device entered receive mode. One that did not is gone.
    EnteredRx(bool),
    /// The dwell's clock runs.
    DwellStarted,
    /// Nanoseconds since the dwell began, and the number at which its deadline lies.
    DeadlineChecked { elapsed_ns: u128, deadline_ns: u128 },
    /// Bytes that the device sent.
    Received(Vec<u8>),
    /// The device could not be read.
    ReadFailed,
    /// Whether the receiver took the packet.
    Delivered(bool),
    /// Whole seconds since the last report.
    ReportChecked(u64),
    /// The report was made.
    Reported,
    /// Whether the device left receive mode. One that did not is gone.
    RxStopped(bool),
}

/// What an event holds.
pub enum EventView {
    StopPolled(bool),
    Paused,
    Opened(bool),
    Applied(bool),
    OverrideRead(Option<Hertz>),
    Tuned(bool),
    EnteredRx(bool),
    DwellStarted,
    DeadlineChecked { elapsed_ns: u128, deadline_ns: u128 },
    Received(Seq<u8>),
    ReadFailed,
    Delivered(bool),
    ReportChecked(u64),
    Reported,
    RxStopped(bool),
}

impl View for Event {
    type V = EventView;

    open spec fn view(&self) -> EventView {
        match *self {
            Event::StopPolled(stop) => EventView::StopPolled(stop),
            Event::Paused => EventView::Paused,
            Event::Opened(found) => EventView::Opened(found),
            Event::Applied(ok) => EventView::Applied(ok),
            Event::OverrideRead(wanted) => EventView::OverrideRead(wanted),
            Event::Tuned(ok) => EventView::Tuned(ok),
            Event::EnteredRx(ok) => EventView::EnteredRx(ok),
            Event::DwellStarted => EventView::DwellStarted,
            Event::DeadlineChecked { elapsed_ns, deadline_ns } => EventView::DeadlineChecked {
                elapsed_ns,
                deadline_ns,
            },
            Event::Received(bytes) => EventView::Received(bytes@),
            Event::ReadFailed => EventView::ReadFailed,
            Event::Delivered(ok) => EventView::Delivered(ok),
            Event::ReportChecked(secs) => EventView::ReportChecked(secs),
            Event::Reported => EventView::Reported,
            Event::RxStopped(ok) => EventView::RxStopped(ok),
        }
    }
}

/// The state of the loop.
pub struct ScanState {
    pub source: HackRfSource,
    pub channels: Seq<Hertz>,
    pub sample_rate: Hertz,
    /// Position in the hop list.
    pub channel_idx: int,
    /// Hops since the last report.
    pub channel_switches: int,
    /// Passes in a row that failed before receive mode, since the last full sweep.
    pub failures: int,
    /// Full sweeps of such passes in a row.
    pub sweep_failures: int,
    /// Read failures since the last packet that was delivered.
    pub stream_failures: int,
    pub device: Device,
    pub phase: Phase,
}

/// Whether the device is given up after so many read failures in a row.
pub open spec fn abandoned(stream_failures: int) -> bool {
    stream_failures >= MAX_CONSECUTIVE_STREAM_FAILURES
}

/// The state at the start of the loop, with the device open and set.
pub open spec fn initial(source: HackRfSource, channels: Seq<Hertz>, sample_rate: Hertz) -> ScanState {
    ScanState {
        source,
        channels,
        sample_rate,
        channel_idx: 0,
        channel_switches: 0,
        failures: 0,
        sweep_failures: 0,
        stream_failures: 0,
        device: Device::Idle,
        phase: Phase::PassStart,
    }
}

impl ScanState {
    /// The same state in another phase.
    pub open spec fn at(self, phase: Phase) -> ScanState {
        ScanState { phase, ..self }
    }

    /// The hop list moved on by one place, round to its start after its end.
    pub open spec fn hopped(self) -> ScanState {
        ScanState { channel_idx: (self.channel_idx + 1) % self.channels.len() as int, ..self }
    }

    /// The start of the pass after one that failed before receive mode.
    pub open spec fn pass_failed(self) -> ScanState {
        ScanState { failures: self.failures + 1, ..self.hopped() }.at(Phase::PassStart)
    }

    /// The pass once earlier failures are waited out: with a device it goes on to
    /// choose a frequency, without one it reopens it first.
    pub open spec fn pass_cleared(self) -> ScanState {
        if self.device is Absent {
            self.at(Phase::Reopen)
        } else {
            self.at(Phase::ChooseFrequency)
        }
    }

    /// The pass once a read failure is waited out: after a full sweep of failed
    /// passes the loop pauses, and after too many such sweeps it ends.
    pub open spec fn sweep_checked(self) -> ScanState {
        if self.failures < self.channels.len() {
            self.pass_cleared()
        } else {
            let s = ScanState { sweep_failures: self.sweep_failures + 1, ..self };
            if s.sweep_failures >= MAX_CONSECUTIVE_SWEEP_FAILURES {
                s.at(Phase::Finished(Outcome::SweepFailures(s.sweep_failures as u32)))
            } else {
                s.at(Phase::SweepPause)
            }
        }
    }

    /// The start of the pass after a dwell. One on a frequency of the hop list is
    /// a hop; one that was parked leaves the hop list where it is.
    pub open spec fn dwell_ended(self, dwell: Dwell) -> ScanState {
        let s = ScanState { device: Device::Idle, ..self }.at(Phase::PassStart);
        if dwell.parked {
            s
        } else {
            ScanState {
                channel_switches: if s.channel_switches == u64::MAX {
                    0
                } else {
                    s.channel_switches + 1
                },
                ..s.hopped()
            }
        }
    }

    /// Whether a viewer wants the frequency of the dwell.
    pub open spec fn wants(dwell: Dwell, wanted: Option<Hertz>) -> bool {
        wanted matches Some(frequency) && frequency.same(dwell.frequency)
    }

    /// The phase of a dwell once the override is read. A parked dwell holds as
    /// long as the viewer wants its frequency. One on the hop list ends when a
    /// viewer wants its frequency, so that the next pass parks on it; otherwise
    /// its deadline counts if there is another channel to hop to.
    pub open spec fn override_seen(self, dwell: Dwell, wanted: Option<Hertz>) -> Phase {
        if dwell.parked {
            if Self::wants(dwell, wanted) {
                Phase::Reading(dwell)
            } else {
                Phase::Stopping(dwell)
            }
        } else if Self::wants(dwell, wanted) {
            Phase::Stopping(dwell)
        } else if self.channels.len() > 1 {
            Phase::DwellDeadline(dwell)
        } else {
            Phase::Reading(dwell)
        }
    }

    /// The dwell that a pass chooses: the viewer's frequency, or else the channel
    /// that is next in the hop list.
    pub open spec fn chosen(self, wanted: Option<Hertz>) -> Dwell {
        match wanted {
            Some(frequency) => Dwell { frequency, parked: true },
            None => Dwell { frequency: self.channels[self.channel_idx], parked: false },
        }
    }
}

/// Whether an event answers what the phase waits for.
pub open spec fn accepts(phase: Phase, event: EventView) -> bool {
    match phase {
        Phase::PassStart | Phase::DwellPoll(_) => event is StopPolled,
        Phase::StreamPause | Phase::SweepPause | Phase::ReopenPause | Phase::RecoverPause =>
            event is Paused,
        Phase::Reopen | Phase::Recover => event is Opened,
        Phase::ReopenSetting(_) | Phase::RecoverSetting(_) => event is Applied,
        Phase::ChooseFrequency | Phase::DwellOverride(_) => event is OverrideRead,
        Phase::Tuning(_) => event is Tuned,
        Phase::EnteringRx(_) => event is EnteredRx,
        Phase::DwellStart(_) => event is DwellStarted,
        Phase::DwellDeadline(_) => event is DeadlineChecked,
        Phase::Reading(_) => event is Received || event is ReadFailed,
        Phase::Delivering(_) => event is Delivered,
        Phase::ReportCheck(_) => event is ReportChecked,
        Phase::Reporting(_) => event is Reported,
        Phase::Stopping(_) | Phase::Disconnecting => event is RxStopped,
        Phase::Finished(_) => false,
    }
}

/// The state after an event. An event that answers nothing changes nothing.
pub open spec fn next(s: ScanState, event: EventView) -> ScanState {
    match (s.phase, event) {
        (Phase::PassStart, EventView::StopPolled(stop)) => if stop {
            s.at(Phase::Finished(Outcome::Stopped))
        } else if abandoned(s.stream_failures) {
            s.at(Phase::Finished(Outcome::StreamFailures(s.stream_failures as u32)))
        } else if s.stream_failures > 0 {
            s.at(Phase::StreamPause)
        } else {
            s.sweep_checked()
        },
        (Phase::StreamPause, EventView::Paused) => s.sweep_checked(),
        (Phase::SweepPause, EventView::Paused) => ScanState { failures: 0, ..s }.pass_cleared(),
        (Phase::Reopen, EventView::Opened(found)) => if found {
            ScanState { device: Device::Idle, ..s }.at(Phase::ReopenSetting(0))
        } else {
            s.at(Phase::ReopenPause)
        },
        (Phase::ReopenSetting(index), EventView::Applied(_)) => if index + 1 < SETTING_COUNT {
            s.at(Phase::ReopenSetting((index + 1) as usize))
        } else {
            s.at(Phase::ChooseFrequency)
        },
        (Phase::ReopenPause, EventView::Paused) => s.pass_failed(),
        (Phase::ChooseFrequency, EventView::OverrideRead(wanted)) => s.at(
            Phase::Tuning(s.chosen(wanted)),
        ),
        (Phase::Tuning(dwell), EventView::Tuned(ok)) => if ok {
            s.at(Phase::EnteringRx(dwell))
        } else {
            s.pass_failed()
        },
        (Phase::EnteringRx(dwell), EventView::EnteredRx(ok)) => if ok {
            ScanState { failures: 0, sweep_failures: 0, device: Device::Receiving, ..s }.at(
                Phase::DwellStart(dwell),
            )
        } else {
            ScanState { failures: s.failures + 1, device: Device::Absent, ..s }.at(
                Phase::RecoverPause,
            )
        },
        (Phase::RecoverPause, EventView::Paused) => s.at(Phase::Recover),
        (Phase::Recover, EventView::Opened(found)) => if found {
            ScanState { device: Device::Idle, ..s }.at(Phase::RecoverSetting(0))
        } else {
            s.hopped().at(Phase::PassStart)
        },
        (Phase::RecoverSetting(index), EventView::Applied(_)) => if index + 1 < SETTING_COUNT {
            s.at(Phase::RecoverSetting((index + 1) as usize))
        } else {
            s.hopped().at(Phase::PassStart)
        },
        (Phase::DwellStart(dwell), EventView::DwellStarted) => s.at(Phase::DwellPoll(dwell)),
        (Phase::DwellPoll(dwell), EventView::StopPolled(stop)) => if stop {
            s.at(Phase::Stopping(dwell))
        } else {
            s.at(Phase::DwellOverride(dwell))
        },
        (Phase::DwellOverride(dwell), EventView::OverrideRead(wanted)) => s.at(
            s.override_seen(dwell, wanted),
        ),
        (Phase::DwellDeadline(dwell), EventView::DeadlineChecked {
            elapsed_ns,
            deadline_ns,
        }) => if elapsed_ns >= deadline_ns {
            s.at(Phase::Stopping(dwell))
        } else {
            s.at(Phase::Reading(dwell))
        },
        (Phase::Reading(dwell), EventView::Received(bytes)) => if crate::iq::decoded(bytes).len()
            > 0 {
            s.at(Phase::Delivering(dwell))
        } else {
            s.at(Phase::ReportCheck(dwell))
        },
        (Phase::Reading(dwell), EventView::ReadFailed) => ScanState {
            stream_failures: s.stream_failures + 1,
            ..s
        }.at(Phase::Stopping(dwell)),
        (Phase::Delivering(dwell), EventView::Delivered(ok)) => if ok {
            ScanState { stream_failures: 0, ..s }.at(Phase::ReportCheck(dwell))
        } else {
            s.at(Phase::Disconnecting)
        },
        (Phase::ReportCheck(dwell), EventView::ReportChecked(secs)) => if secs
            >= REPORT_INTERVAL_SECS {
            s.at(Phase::Reporting(dwell))
        } else {
            s.at(Phase::DwellPoll(dwell))
        },
        (Phase::Reporting(dwell), EventView::Reported) => ScanState { channel_switches: 0, ..s }.at(
            Phase::DwellPoll(dwell),
        ),
        (Phase::Stopping(dwell), EventView::RxStopped(ok)) => if ok {
            s.dwell_ended(dwell)
        } else {
            ScanState { device: Device::Absent, ..s }.at(Phase::Finished(Outcome::StopRxFailed))
        },
        (Phase::Disconnecting, EventView::RxStopped(ok)) => ScanState {
            device: if ok {
                Device::Idle
            } else {
                Device::Absent
            },
            ..s
        }.at(Phase::Finished(Outcome::ReceiverGone)),
        _ => s,
    }
}

/// The packet made of the bytes that a read gave during a dwell.
pub open spec fn packet(s: ScanState, dwell: Dwell, bytes: Seq<u8>) -> IqPacketView {
    IqPacketView {
        samples: crate::iq::decoded(bytes),
        center_frequency_hz: dwell.frequency,
        sample_rate_hz: s.sample_rate,
        overrun: false,
    }
}

/// What a state that was reached by `event` asks for.
pub open spec fn request(s: ScanState, event: EventView) -> RequestView {
    match s.phase {
        Phase::PassStart | Phase::DwellPoll(_) => RequestView::PollStop,
        Phase::StreamPause => RequestView::Pause(STREAM_FAILURE_BACKOFF_MS),
        Phase::SweepPause => RequestView::Pause(SWEEP_FAILURE_BACKOFF_MS),
        Phase::ReopenPause | Phase::RecoverPause => RequestView::Pause(REOPEN_BACKOFF_MS),
        Phase::Reopen | Phase::Recover => RequestView::OpenDevice,
        Phase::ReopenSetting(index) | Phase::RecoverSetting(index) => RequestView::Apply(
            s.source.settings(s.sample_rate)[index as int],
        ),
        Phase::ChooseFrequency | Phase::DwellOverride(_) => RequestView::ReadOverride,
        Phase::Tuning(dwell) => RequestView::Tune(
            dwell.frequency.whole(u64::MAX as nat) as u64,
        ),
        Phase::EnteringRx(_) => RequestView::EnterRx,
        Phase::DwellStart(dwell) => RequestView::StartDwell(dwell.frequency),
        Phase::DwellDeadline(_) => RequestView::CheckDeadline,
        Phase::Reading(_) => RequestView::Read,
        Phase::Delivering(dwell) => RequestView::Deliver(
            packet(s, dwell, event->Received_0),
        ),
        Phase::ReportCheck(_) => RequestView::CheckReport,
        Phase::Reporting(_) => RequestView::Report {
            switches: s.channel_switches as u64,
            channels: s.channels.len(),
        },
        Phase::Stopping(_) | Phase::Disconnecting => RequestView::StopRx,
        Phase::Finished(outcome) => RequestView::Finish(outcome),
    }
}

/// The device and the counts that a phase goes with.
pub open spec fn phase_inv(s: ScanState) -> bool {
    let n = s.channels.len();
    match s.phase {
        Phase::PassStart => !(s.device is Receiving),
        Phase::StreamPause => !(s.device is Receiving) && 0 < s.stream_failures && !abandoned(
            s.stream_failures,
        ),
        Phase::SweepPause => !(s.device is Receiving) && !abandoned(s.stream_failures) && s.failures
            == n,
        Phase::Reopen | Phase::ReopenPause => s.device is Absent && s.failures < n && !abandoned(
            s.stream_failures,
        ),
        Phase::ReopenSetting(index) => s.device is Idle && s.failures < n && index < SETTING_COUNT
            && !abandoned(s.stream_failures),
        Phase::ChooseFrequency | Phase::Tuning(_) | Phase::EnteringRx(_) => s.device is Idle
            && s.failures < n && !abandoned(s.stream_failures),
        Phase::RecoverPause | Phase::Recover => s.device is Absent && !abandoned(s.stream_failures),
        Phase::RecoverSetting(index) => s.device is Idle && index < SETTING_COUNT && !abandoned(
            s.stream_failures,
        ),
        Phase::DwellDeadline(dwell) => s.device is Receiving && s.failures == 0 && s.sweep_failures
            == 0 && !abandoned(s.stream_failures) && !dwell.parked && n > 1,
        Phase::DwellStart(_)
        | Phase::DwellPoll(_)
        | Phase::DwellOverride(_)
        | Phase::Reading(_)
        | Phase::Delivering(_)
        | Phase::ReportCheck(_)
        | Phase::Reporting(_)
        | Phase::Disconnecting => s.device is Receiving && s.failures == 0 && s.sweep_failures == 0
            && !abandoned(s.stream_failures),
        Phase::Stopping(_) => s.device is Receiving && s.failures == 0 && s.sweep_failures == 0,
        Phase::Finished(_) => true,
    }
}

/// What holds of every state of the loop.
pub open spec fn inv(s: ScanState) -> bool {
    &&& usable_rate(s.sample_rate)
    &&& 0 < s.channels.len()
    &&& 0 <= s.channel_idx < s.channels.len()
    &&& 0 <= s.channel_switches <= u64::MAX
    &&& 0 <= s.failures <= s.channels.len()
    &&& 0 <= s.sweep_failures <= MAX_CONSECUTIVE_SWEEP_FAILURES
    &&& s.sweep_failures == MAX_CONSECUTIVE_SWEEP_FAILURES ==> s.phase
        == Phase::Finished(Outcome::SweepFailures(MAX_CONSECUTIVE_SWEEP_FAILURES))
    &&& 0 <= s.stream_failures <= MAX_CONSECUTIVE_STREAM_FAILURES
    &&& phase_inv(s)
}

} // verus!

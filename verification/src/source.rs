//! The source's settings and the start-up of its device.
use crate::error::{ConfigFault, SdrError};
use crate::hertz::{law_whole_hertz_do_not_exceed_the_value, Hertz};
use crate::rate::{
    law_resolved_rate_is_usable, resolve_sample_rate, resolved, usable_rate,
    HACKRF_MAX_SAMPLE_RATE_HZ,
};

use vstd::arithmetic::power2::pow2;
use vstd::prelude::*;

verus! {

/// A HackRF One source: the gains and switches to run the device with.
#[derive(Clone, Copy, Debug)]
pub struct HackRfSource {
    /// LNA (IF) gain in dB, 0 to 40 in steps of 8. The device rounds down to a step.
    pub lna_gain: u16,
    /// VGA (baseband) gain in dB, 0 to 62 in steps of 2.
    pub vga_gain: u16,
    /// Front-end +14 dB RF amplifier. It overloads easily on strong signals.
    pub amp_enable: bool,
    /// Bias tee: DC power on the antenna port for active antennas.
    pub bias_tee: bool,
}

impl Default for HackRfSource {
    /// Moderate gains, with the amplifier and the bias tee off.
    fn default() -> (r: Self)
        ensures
            r.lna_gain == 16,
            r.vga_gain == 20,
            !r.amp_enable,
            !r.bias_tee,
    {
        HackRfSource { lna_gain: 16, vga_gain: 20, amp_enable: false, bias_tee: false }
    }
}

/// One setting of the device, with the arguments of the driver call that makes it.
#[derive(Clone, Copy, Debug)]
pub enum DeviceSetting {
    /// Sample rate in whole hertz and its divider; `rate` is the exact rate.
    SampleRate { rate: Hertz, hz: u32, divider: u32 },
    /// LNA (IF) gain in dB.
    LnaGain(u16),
    /// VGA (baseband) gain in dB.
    VgaGain(u16),
    /// Front-end RF amplifier on or off.
    AmpEnable(bool),
    /// Antenna port power: one for on, zero for off.
    AntennaEnable(u8),
}

/// Number of settings that a freshly opened device gets.
pub const SETTING_COUNT: usize = 5;

impl HackRfSource {
    /// The settings that a freshly opened device gets, in order.
    pub open spec fn settings(self, rate: Hertz) -> Seq<DeviceSetting> {
        seq![
            DeviceSetting::SampleRate {
                rate,
                hz: rate.whole(u32::MAX as nat) as u32,
                divider: 1,
            },
            DeviceSetting::LnaGain(self.lna_gain),
            DeviceSetting::VgaGain(self.vga_gain),
            DeviceSetting::AmpEnable(self.amp_enable),
            DeviceSetting::AntennaEnable(
                if self.bias_tee {
                    1
                } else {
                    0
                },
            ),
        ]
    }

    /// The setting at a position in the order.
    pub fn setting(&self, rate: Hertz, index: usize) -> (r: DeviceSetting)
        requires
            index < SETTING_COUNT,
        ensures
            r == self.settings(rate)[index as int],
    {
        if index == 0 {
            DeviceSetting::SampleRate { rate, hz: rate.whole_u32(), divider: 1 }
        } else if index == 1 {
            DeviceSetting::LnaGain(self.lna_gain)
        } else if index == 2 {
            DeviceSetting::VgaGain(self.vga_gain)
        } else if index == 3 {
            DeviceSetting::AmpEnable(self.amp_enable)
        } else if self.bias_tee {
            DeviceSetting::AntennaEnable(1)
        } else {
            DeviceSetting::AntennaEnable(0)
        }
    }

    /// Begins to start the source: checks the configuration before any device is
    /// touched. The result then asks for the device to be opened.
    pub fn start(self, config: SourceConfig) -> (r: Result<Startup, SdrError>)
        ensures
            match resolved(config.channels_hz@.len(), config.sample_rate_hz) {
                Err(e) => r == Err::<Startup, SdrError>(e),
                Ok((rate, clamped)) => r matches Ok(startup) && startup.plan == (Plan {
                    source: self,
                    channels: config.channels_hz,
                    sample_rate: rate,
                }) && startup.was_clamped == clamped && startup.phase == StartPhase::Opening,
            },
            r matches Ok(startup) ==> startup.wf(),
    {
        proof {
            law_resolved_rate_is_usable(config.channels_hz@.len(), config.sample_rate_hz);
        }
        match resolve_sample_rate(config.channels_hz.len(), config.sample_rate_hz) {
            Err(e) => Err(e),
            Ok((sample_rate, was_clamped)) => Ok(
                Startup {
                    plan: Plan { source: self, channels: config.channels_hz, sample_rate },
                    was_clamped,
                    phase: StartPhase::Opening,
                },
            ),
        }
    }
}

/// What a source is asked to receive.
#[derive(Debug)]
pub struct SourceConfig {
    /// Center frequencies to hop over, in order.
    pub channels_hz: Vec<Hertz>,
    /// Requested sample rate.
    pub sample_rate_hz: Hertz,
}

/// A checked configuration.
#[derive(Debug)]
pub struct Plan {
    pub source: HackRfSource,
    pub channels: Vec<Hertz>,
    pub sample_rate: Hertz,
}

impl Plan {
    /// There is a channel to listen on, and the rate is one that the device can run at.
    pub open spec fn wf(self) -> bool {
        &&& self.channels@.len() > 0
        &&& usable_rate(self.sample_rate)
    }
}

/// How far a start-up has come.
#[derive(Clone, Copy, Debug)]
pub enum StartPhase {
    /// The device is to be opened.
    Opening,
    /// The setting at this position is to be applied.
    Applying(usize),
    /// The device is open and set.
    Ready,
}

/// A start-up in progress.
#[derive(Debug)]
pub struct Startup {
    pub plan: Plan,
    /// Whether the requested sample rate was lowered to the ceiling.
    pub was_clamped: bool,
    pub phase: StartPhase,
}

/// What the start-up wants done next.
#[derive(Clone, Copy, Debug)]
pub enum StartRequest {
    /// Open the device.
    OpenDevice,
    /// Apply one setting to the device.
    Apply(DeviceSetting),
    /// Nothing: begin to scan.
    Scan,
}

/// What came of a start-up request.
#[derive(Debug)]
pub enum StartEvent {
    /// Whether a device was opened.
    Opened(bool),
    /// Whether the setting was applied, or what the driver said against it.
    Applied(Result<(), String>),
}

/// Whether an event answers what the phase asks for.
pub open spec fn start_accepts(phase: StartPhase, event: StartEvent) -> bool {
    match phase {
        StartPhase::Opening => event is Opened,
        StartPhase::Applying(_) => event is Applied,
        StartPhase::Ready => false,
    }
}

/// The phase after an event, or why the start-up fails.
pub open spec fn start_next(
    settings: Seq<DeviceSetting>,
    phase: StartPhase,
    event: StartEvent,
) -> Result<StartPhase, SdrError> {
    match (phase, event) {
        (StartPhase::Opening, StartEvent::Opened(false)) => Err(SdrError::NotFound),
        (StartPhase::Opening, _) => Ok(StartPhase::Applying(0)),
        (StartPhase::Applying(index), StartEvent::Applied(Err(detail))) => Err(
            SdrError::BadConfig(
                ConfigFault::Rejected { setting: settings[index as int], detail },
            ),
        ),
        (StartPhase::Applying(index), _) => if index + 1 < settings.len() {
            Ok(StartPhase::Applying((index + 1) as usize))
        } else {
            Ok(StartPhase::Ready)
        },
        _ => Ok(phase),
    }
}

impl Startup {
    /// The plan is checked, and the phase names a setting that there is.
    pub open spec fn wf(self) -> bool {
        &&& self.plan.wf()
        &&& self.phase matches StartPhase::Applying(index) ==> index < SETTING_COUNT
    }

    /// The settings that the device gets.
    pub open spec fn settings(self) -> Seq<DeviceSetting> {
        self.plan.source.settings(self.plan.sample_rate)
    }

    /// What is to be done next.
    pub open spec fn asks(self) -> StartRequest {
        match self.phase {
            StartPhase::Opening => StartRequest::OpenDevice,
            StartPhase::Applying(index) => StartRequest::Apply(self.settings()[index as int]),
            StartPhase::Ready => StartRequest::Scan,
        }
    }

    /// What is to be done next.
    pub fn request(&self) -> (r: StartRequest)
        requires
            self.wf(),
        ensures
            r == match self.phase {
                StartPhase::Opening => StartRequest::OpenDevice,
                StartPhase::Applying(index) => StartRequest::Apply(self.settings()[index as int]),
                StartPhase::Ready => StartRequest::Scan,
            },
            r == self.asks(),
    {
        match self.phase {
            StartPhase::Opening => StartRequest::OpenDevice,
            StartPhase::Applying(index) => StartRequest::Apply(
                self.plan.source.setting(self.plan.sample_rate, index),
            ),
            StartPhase::Ready => StartRequest::Scan,
        }
    }

    /// Whether an event answers the request.
    pub fn accepts(&self, event: &StartEvent) -> (r: bool)
        ensures
            r == start_accepts(self.phase, *event),
    {
        match (self.phase, event) {
            (StartPhase::Opening, StartEvent::Opened(_)) => true,
            (StartPhase::Applying(_), StartEvent::Applied(_)) => true,
            _ => false,
        }
    }

    /// Takes in what came of the request.
    pub fn step(self, event: StartEvent) -> (r: Result<Startup, SdrError>)
        requires
            self.wf(),
            start_accepts(self.phase, event),
        ensures
            match start_next(self.settings(), self.phase, event) {
                Err(e) => r == Err::<Startup, SdrError>(e),
                Ok(phase) => r == Ok::<Startup, SdrError>(Startup { phase, ..self }),
            },
            r matches Ok(startup) ==> startup.wf(),
    {
        let phase = match (self.phase, event) {
            (StartPhase::Opening, StartEvent::Opened(found)) => {
                if !found {
                    return Err(SdrError::NotFound);
                }
                StartPhase::Applying(0)
            },
            (StartPhase::Applying(index), StartEvent::Applied(outcome)) => {
                match outcome {
                    Err(detail) => {
                        let setting = self.plan.source.setting(self.plan.sample_rate, index);
                        return Err(
                            SdrError::BadConfig(ConfigFault::Rejected { setting, detail }),
                        );
                    },
                    Ok(()) => {},
                }
                if index + 1 < SETTING_COUNT {
                    StartPhase::Applying(index + 1)
                } else {
                    StartPhase::Ready
                }
            },
            (phase, _) => phase,
        };
        Ok(Startup { plan: self.plan, was_clamped: self.was_clamped, phase })
    }
}

/// The phase after the device was opened and the first `applied` settings were
/// applied without fault.
pub open spec fn start_progress(settings: Seq<DeviceSetting>, applied: nat) -> StartPhase
    decreases applied,
{
    if applied == 0 {
        start_next(settings, StartPhase::Opening, StartEvent::Opened(true))->Ok_0
    } else {
        start_next(
            settings,
            start_progress(settings, (applied - 1) as nat),
            StartEvent::Applied(Ok(())),
        )->Ok_0
    }
}

/// A start-up applies the settings one by one in their order. It is ready exactly
/// when all of them were applied; the first one that is rejected ends it with an
/// error that names it, and none after it is asked for.
pub proof fn law_start_applies_in_order(
    source: HackRfSource,
    rate: Hertz,
    applied: nat,
    detail: String,
)
    requires
        applied <= SETTING_COUNT,
    ensures
        applied < SETTING_COUNT ==> start_progress(source.settings(rate), applied)
            == StartPhase::Applying(applied as usize),
        applied == SETTING_COUNT ==> start_progress(source.settings(rate), applied)
            == StartPhase::Ready,
        applied < SETTING_COUNT ==> start_next(
            source.settings(rate),
            start_progress(source.settings(rate), applied),
            StartEvent::Applied(Err(detail)),
        ) == Err::<StartPhase, SdrError>(
            SdrError::BadConfig(
                ConfigFault::Rejected { setting: source.settings(rate)[applied as int], detail },
            ),
        ),
    decreases applied,
{
    if applied > 0 {
        law_start_applies_in_order(source, rate, (applied - 1) as nat, detail);
    }
}

/// A device that is given a checked rate is never asked for more samples a second
/// than the ceiling, and its antenna port is either on or off.
pub proof fn law_settings_stay_below_the_ceiling(source: HackRfSource, rate: Hertz)
    requires
        usable_rate(rate),
    ensures
        source.settings(rate).len() == SETTING_COUNT,
        source.settings(rate)[0] matches DeviceSetting::SampleRate { hz, divider, .. } && hz
            == rate.whole(u32::MAX as nat) && hz <= HACKRF_MAX_SAMPLE_RATE_HZ && divider == 1,
        source.settings(rate)[4] matches DeviceSetting::AntennaEnable(value) && value <= 1,
{
    law_resolved_rate_is_usable(1, rate);
}

/// A device gets what the source holds, each thing once and in one order: the rate, of
/// which it is told the whole hertz undivided, the two gains, the amplifier switch, and
/// power on the antenna port exactly when the bias tee is on.
pub proof fn law_a_device_gets_what_the_source_holds(source: HackRfSource, rate: Hertz)
    ensures
        source.settings(rate).len() == 5,
        source.settings(rate)[0] matches DeviceSetting::SampleRate { rate: exact, hz, divider }
            && exact.bits == rate.bits && divider == 1 && (usable_rate(rate) ==> hz * pow2(1074)
            <= rate.scaled() < (hz + 1) * pow2(1074)),
        source.settings(rate)[1] matches DeviceSetting::LnaGain(gain) && gain == source.lna_gain,
        source.settings(rate)[2] matches DeviceSetting::VgaGain(gain) && gain == source.vga_gain,
        source.settings(rate)[3] matches DeviceSetting::AmpEnable(on) && on == source.amp_enable,
        source.settings(rate)[4] matches DeviceSetting::AntennaEnable(value) && (value == 1
            <==> source.bias_tee) && (value == 0 <==> !source.bias_tee),
{
    law_whole_hertz_do_not_exceed_the_value(rate, u32::MAX as nat);
    if usable_rate(rate) {
        law_resolved_rate_is_usable(1, rate);
    }
}

/// Whether a setting gives a device the thing that the source holds at a place: the
/// rate in whole hertz, undivided, then the two gains, the amplifier switch, and one or
/// zero for the antenna port.
pub open spec fn sets(
    source: HackRfSource,
    rate: Hertz,
    place: int,
    setting: DeviceSetting,
) -> bool {
    match setting {
        DeviceSetting::SampleRate { rate: exact, hz, divider } => place == 0 && exact.bits
            == rate.bits && divider == 1 && hz * pow2(1074) <= rate.scaled() < (hz + 1) * pow2(
            1074,
        ),
        DeviceSetting::LnaGain(gain) => place == 1 && gain == source.lna_gain,
        DeviceSetting::VgaGain(gain) => place == 2 && gain == source.vga_gain,
        DeviceSetting::AmpEnable(on) => place == 3 && on == source.amp_enable,
        DeviceSetting::AntennaEnable(value) => place == 4 && (if source.bias_tee {
            value == 1
        } else {
            value == 0
        }),
    }
}

/// A start-up asks for the device, then for everything that the source holds, each
/// thing once and in one order, and then to scan: after the device was opened and
/// `applied` settings were applied it asks for the setting at that place, and after the
/// last one for nothing more.
pub proof fn law_a_start_up_asks_in_order(startup: Startup, applied: nat)
    requires
        startup.wf(),
        applied <= 5,
    ensures
        ({
            let opening = Startup { phase: StartPhase::Opening, ..startup };
            let later = Startup { phase: start_progress(startup.settings(), applied), ..startup };
            &&& opening.asks() == StartRequest::OpenDevice
            &&& applied < 5 ==> (later.asks() matches StartRequest::Apply(setting) && sets(
                startup.plan.source,
                startup.plan.sample_rate,
                applied as int,
                setting,
            ))
            &&& applied == 5 ==> later.asks() == StartRequest::Scan
        }),
{
    reveal_with_fuel(start_progress, 6);
    law_a_device_gets_what_the_source_holds(startup.plan.source, startup.plan.sample_rate);
}

/// Two sources give a device the same settings only if they hold the same.
pub proof fn law_settings_tell_sources_apart(
    a: HackRfSource,
    b: HackRfSource,
    rate_a: Hertz,
    rate_b: Hertz,
)
    requires
        a.settings(rate_a) == b.settings(rate_b),
    ensures
        a == b,
        rate_a == rate_b,
{
    law_a_device_gets_what_the_source_holds(a, rate_a);
    law_a_device_gets_what_the_source_holds(b, rate_b);
}

/// A start-up waits for a device, then for its settings, and for nothing once it is
/// ready. It goes on from a device that was found to its first setting, from a setting
/// that was applied to the one after it, and from the last one to the scan. It fails
/// exactly when no device is found or a setting is rejected, and the error names that
/// setting and repeats what the driver said.
pub proof fn law_start_goes_on_or_names_the_fault(
    source: HackRfSource,
    rate: Hertz,
    index: usize,
    found: bool,
    outcome: Result<(), String>,
)
    requires
        index < 5,
    ensures
        ({
            let settings = source.settings(rate);
            let opened = start_next(settings, StartPhase::Opening, StartEvent::Opened(found));
            let applied = start_next(
                settings,
                StartPhase::Applying(index),
                StartEvent::Applied(outcome),
            );
            &&& start_accepts(StartPhase::Opening, StartEvent::Opened(found))
            &&& !start_accepts(StartPhase::Opening, StartEvent::Applied(outcome))
            &&& start_accepts(StartPhase::Applying(index), StartEvent::Applied(outcome))
            &&& !start_accepts(StartPhase::Applying(index), StartEvent::Opened(found))
            &&& !start_accepts(StartPhase::Ready, StartEvent::Opened(found))
            &&& !start_accepts(StartPhase::Ready, StartEvent::Applied(outcome))
            &&& found ==> opened == Ok::<StartPhase, SdrError>(StartPhase::Applying(0))
            &&& !found ==> opened == Err::<StartPhase, SdrError>(SdrError::NotFound)
            &&& outcome is Ok && index < 4 ==> applied == Ok::<StartPhase, SdrError>(
                StartPhase::Applying((index + 1) as usize),
            )
            &&& outcome is Ok && index == 4 ==> applied == Ok::<StartPhase, SdrError>(
                StartPhase::Ready,
            )
            &&& outcome matches Err(said) ==> (applied matches Err(
                SdrError::BadConfig(ConfigFault::Rejected { setting, detail }),
            ) && setting == settings[index as int] && detail == said)
        }),
{
    law_a_device_gets_what_the_source_holds(source, rate);
}

} // verus!

use orecchiette_hackrf::source::{
    DeviceSetting, StartEvent, StartPhase, StartRequest, SETTING_COUNT,
};
use orecchiette_hackrf::{ConfigFault, HackRfSource, Hertz, SdrError, SourceConfig, Startup};

fn hertz(value: f64) -> Hertz {
    Hertz { bits: value.to_bits() }
}

fn config(channels: &[f64], rate: f64) -> SourceConfig {
    SourceConfig {
        channels_hz: channels.iter().map(|hz| hertz(*hz)).collect(),
        sample_rate_hz: hertz(rate),
    }
}

fn source() -> HackRfSource {
    HackRfSource { lna_gain: 24, vga_gain: 30, amp_enable: true, bias_tee: true }
}

fn started(rate: f64) -> Startup {
    source().start(config(&[5_865e6, 5_880e6], rate)).unwrap()
}

#[test]
fn the_default_source_is_moderate() {
    let source = HackRfSource::default();
    assert_eq!(source.lna_gain, 16);
    assert_eq!(source.vga_gain, 20);
    assert!(!source.amp_enable);
    assert!(!source.bias_tee);
}

#[test]
fn a_bad_configuration_is_refused_before_the_device_is_opened() {
    assert!(matches!(
        source().start(config(&[], 10e6)),
        Err(SdrError::BadConfig(ConfigFault::NoChannels))
    ));
    assert!(matches!(
        source().start(config(&[100e6], 0.0)),
        Err(SdrError::BadConfig(ConfigFault::InvalidSampleRate(_)))
    ));
}

#[test]
fn the_rate_is_lowered_to_the_ceiling() {
    let startup = started(40e6);
    assert!(startup.was_clamped);
    assert_eq!(startup.plan.sample_rate.bits, 20e6f64.to_bits());
    assert_eq!(startup.plan.channels.len(), 2);
    assert!(!started(16e6).was_clamped);
}

#[test]
fn a_missing_device_is_not_found() {
    let startup = started(16e6);
    assert!(matches!(startup.request(), StartRequest::OpenDevice));
    assert!(matches!(startup.step(StartEvent::Opened(false)), Err(SdrError::NotFound)));
}

fn settings(rate: f64) -> Vec<DeviceSetting> {
    let mut startup = started(rate).step(StartEvent::Opened(true)).unwrap();
    let mut asked = Vec::new();
    loop {
        match startup.request() {
            StartRequest::Apply(setting) => asked.push(setting),
            StartRequest::Scan => return asked,
            StartRequest::OpenDevice => panic!("opened twice"),
        }
        startup = startup.step(StartEvent::Applied(Ok(()))).unwrap();
    }
}

#[test]
fn settings_are_applied_in_order() {
    let asked = settings(40e6);
    assert_eq!(asked.len(), SETTING_COUNT);
    assert!(matches!(
        asked[0],
        DeviceSetting::SampleRate { hz: 20_000_000, divider: 1, .. }
    ));
    assert!(matches!(asked[1], DeviceSetting::LnaGain(24)));
    assert!(matches!(asked[2], DeviceSetting::VgaGain(30)));
    assert!(matches!(asked[3], DeviceSetting::AmpEnable(true)));
    assert!(matches!(asked[4], DeviceSetting::AntennaEnable(1)));
    assert!(matches!(
        settings(12_500_000.75)[0],
        DeviceSetting::SampleRate { hz: 12_500_000, divider: 1, .. }
    ));
}

#[test]
fn the_first_rejected_setting_ends_the_start() {
    for fails_at in 0..SETTING_COUNT {
        let mut startup = started(16e6).step(StartEvent::Opened(true)).unwrap();
        for _ in 0..fails_at {
            startup = startup.step(StartEvent::Applied(Ok(()))).unwrap();
        }
        assert!(matches!(startup.phase, StartPhase::Applying(k) if k == fails_at));
        match startup.step(StartEvent::Applied(Err("Argument".to_string()))) {
            Err(SdrError::BadConfig(ConfigFault::Rejected { setting, detail })) => {
                assert_eq!(detail, "Argument");
                let expected = settings(16e6)[fails_at];
                assert_eq!(format!("{setting:?}"), format!("{expected:?}"));
            }
            other => panic!("setting {fails_at}: {other:?}"),
        }
    }
}

#[test]
fn events_out_of_turn_are_recognised() {
    let startup = started(16e6);
    assert!(startup.accepts(&StartEvent::Opened(true)));
    assert!(!startup.accepts(&StartEvent::Applied(Ok(()))));
    let startup = startup.step(StartEvent::Opened(true)).unwrap();
    assert!(!startup.accepts(&StartEvent::Opened(true)));
    assert!(startup.accepts(&StartEvent::Applied(Err(String::new()))));
}

#[test]
fn errors_say_what_happened() {
    let rejected = |setting| {
        SdrError::BadConfig(ConfigFault::Rejected { setting, detail: "Argument".to_string() })
    };
    assert_eq!(
        SdrError::NotFound.message(""),
        "No HackRF One found. Ensure it is connected and not claimed by another process."
    );
    assert_eq!(
        SdrError::BadConfig(ConfigFault::NoChannels).message(""),
        "SourceConfig.channels_hz must not be empty"
    );
    let bad_rate = SdrError::BadConfig(ConfigFault::InvalidSampleRate(hertz(-1.5)));
    assert_eq!(bad_rate.rate().unwrap().bits, (-1.5f64).to_bits());
    assert_eq!(bad_rate.message("-1.5"), "invalid sample rate -1.5 Hz");
    let rate = rejected(DeviceSetting::SampleRate {
        rate: hertz(16e6),
        hz: 16_000_000,
        divider: 1,
    });
    assert_eq!(rate.rate().unwrap().bits, 16e6f64.to_bits());
    assert_eq!(rate.message("16000000"), "set_sample_rate(16000000): Argument");
    assert!(rejected(DeviceSetting::LnaGain(48)).rate().is_none());
    assert_eq!(
        rejected(DeviceSetting::LnaGain(48)).message(""),
        "set_lna_gain(48): Argument"
    );
    assert_eq!(
        rejected(DeviceSetting::VgaGain(65535)).message(""),
        "set_vga_gain(65535): Argument"
    );
    assert_eq!(rejected(DeviceSetting::VgaGain(0)).message(""), "set_vga_gain(0): Argument");
    assert_eq!(
        rejected(DeviceSetting::AmpEnable(true)).message(""),
        "set_amp_enable: Argument"
    );
    assert_eq!(
        rejected(DeviceSetting::AntennaEnable(1)).message(""),
        "set_antenna_enable: Argument"
    );
}

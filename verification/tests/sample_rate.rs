use orecchiette_hackrf::rate::{resolve_sample_rate, HACKRF_MAX_SAMPLE_RATE_HZ};
use orecchiette_hackrf::{ConfigFault, Hertz, SdrError};

fn hertz(value: f64) -> Hertz {
    Hertz { bits: value.to_bits() }
}

fn value(hertz: Hertz) -> f64 {
    f64::from_bits(hertz.bits)
}

fn resolve(num_channels: usize, requested_hz: f64) -> Result<(f64, bool), SdrError> {
    resolve_sample_rate(num_channels, hertz(requested_hz)).map(|(rate, clamped)| (value(rate), clamped))
}

#[test]
fn resolve_sample_rate_rejects_empty_channels() {
    let err = resolve(0, 10_000_000.0).unwrap_err();
    assert!(matches!(err, SdrError::BadConfig(_)));
}

#[test]
fn resolve_sample_rate_rejects_non_positive_rate() {
    assert!(resolve(1, 0.0).is_err());
    assert!(resolve(1, -1.0).is_err());
}

#[test]
fn resolve_sample_rate_passes_through_under_ceiling() {
    let (rate, clamped) = resolve(1, 10_000_000.0).unwrap();
    assert_eq!(rate, 10_000_000.0);
    assert!(!clamped);
}

#[test]
fn resolve_sample_rate_clamps_above_ceiling() {
    let (rate, clamped) = resolve(1, 40_000_000.0).unwrap();
    assert_eq!(rate, f64::from(HACKRF_MAX_SAMPLE_RATE_HZ));
    assert!(clamped);
}

#[test]
fn the_ceiling_itself_is_not_clamped() {
    assert_eq!(resolve(3, 20_000_000.0).unwrap(), (20_000_000.0, false));
    assert_eq!(resolve(3, 20_000_000.000001).unwrap(), (20_000_000.0, true));
    assert_eq!(resolve(3, f64::INFINITY).unwrap(), (20_000_000.0, true));
}

#[test]
fn fractional_and_tiny_rates_pass_unchanged() {
    assert_eq!(resolve(1, 12_345_678.5).unwrap(), (12_345_678.5, false));
    assert_eq!(resolve(1, 5e-324).unwrap(), (5e-324, false));
}

#[test]
fn zeros_and_negative_rates_are_named_in_the_error() {
    for bad in [0.0, -0.0, -5e-324, -1.0, f64::NEG_INFINITY] {
        match resolve(1, bad) {
            Err(SdrError::BadConfig(ConfigFault::InvalidSampleRate(rate))) => {
                assert_eq!(rate.bits, bad.to_bits());
            }
            other => panic!("{bad} gave {other:?}"),
        }
    }
    assert!(matches!(resolve(0, 0.0), Err(SdrError::BadConfig(ConfigFault::NoChannels))));
}

#[test]
fn a_rate_that_is_no_number_gets_the_ceiling() {
    assert_eq!(resolve(1, f64::NAN).unwrap(), (20_000_000.0, false));
    assert_eq!(resolve(1, -f64::NAN).unwrap(), (20_000_000.0, false));
}

#[test]
fn resolving_twice_changes_nothing() {
    for requested in [1.0, 2_000_000.0, 19_999_999.9, 20_000_000.0, 61_440_000.0] {
        let (once, _) = resolve(2, requested).unwrap();
        assert_eq!(resolve(2, once).unwrap(), (once, false));
    }
}

const SAMPLES: [f64; 22] = [
    0.0,
    -0.0,
    5e-324,
    -5e-324,
    2.2250738585072014e-308,
    0.5,
    0.999,
    1.0,
    1.5,
    -1.5,
    4503599627370495.5,
    4503599627370497.0,
    9007199254740993.0,
    4294967295.0,
    4294967296.5,
    5_865_000_000.25,
    18446744073709549568.0,
    18446744073709551616.0,
    1e300,
    f64::INFINITY,
    f64::NEG_INFINITY,
    f64::NAN,
];

#[test]
fn whole_hertz_round_toward_zero_and_saturate() {
    for x in SAMPLES {
        assert_eq!(hertz(x).whole_u64(), x as u64, "{x}");
        assert_eq!(hertz(x).whole_u32(), x as u32, "{x}");
    }
    assert_eq!(hertz(5_865_000_000.25).whole_u64(), 5_865_000_000);
}

#[test]
fn comparisons_are_those_of_doubles() {
    for x in SAMPLES {
        assert_eq!(hertz(x).nan(), x.is_nan(), "{x}");
        for y in SAMPLES {
            assert_eq!(hertz(x).less_than(hertz(y)), x < y, "{x} {y}");
            assert_eq!(hertz(x).equals(hertz(y)), x == y, "{x} {y}");
        }
    }
}

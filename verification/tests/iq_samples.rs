use orecchiette_hackrf::iq::{decode, UNIT_SCALE};

fn i8_to_unit(byte: u8) -> f32 {
    f32::from(orecchiette_hackrf::iq::i8_to_unit(byte)) / f32::from(UNIT_SCALE)
}

/// The converter's extremes land inside [-1, 1).
#[test]
fn full_scale_samples_stay_in_the_documented_range() {
    assert_eq!(i8_to_unit(0x80), -1.0, "-128 is exactly -1.0");
    assert!(i8_to_unit(0x7F) < 1.0, "+127 must stay below +1.0");
    for raw in 0u16..=255 {
        let v = i8_to_unit(raw as u8);
        assert!(
            (-1.0..1.0).contains(&v),
            "raw {raw} scaled to {v}, outside [-1, 1)"
        );
    }
}

#[test]
fn zero_and_sign_are_preserved() {
    assert_eq!(i8_to_unit(0), 0.0);
    assert!(i8_to_unit(0x01) > 0.0, "+1 is positive");
    assert!(i8_to_unit(0xFF) < 0.0, "-1 (0xFF) is negative");
    // Symmetric magnitudes either side of zero.
    assert_eq!(i8_to_unit(0x40), 0.5, "+64 is half scale");
    assert_eq!(i8_to_unit(0xC0), -0.5, "-64 is minus half scale");
}

fn pairs(bytes: &[u8]) -> Vec<(i8, i8)> {
    decode(&bytes.to_vec()).iter().map(|s| (s.re, s.im)).collect()
}

#[test]
fn bytes_are_read_as_interleaved_pairs() {
    assert_eq!(pairs(&[0x01, 0xFF, 0x80, 0x7F]), vec![(1, -1), (-128, 127)]);
}

#[test]
fn a_trailing_odd_byte_is_dropped() {
    assert_eq!(pairs(&[1, 2, 3]), vec![(1, 2)]);
    assert_eq!(pairs(&[9]), vec![]);
    assert_eq!(pairs(&[]), vec![]);
}

#[test]
fn whole_pairs_decode_piece_by_piece() {
    let a = [5u8, 200, 17, 128];
    let b = [0u8, 255];
    let whole = [5u8, 200, 17, 128, 0, 255];
    let mut joined = pairs(&a);
    joined.extend(pairs(&b));
    assert_eq!(pairs(&whole), joined);
}

#[test]
fn every_byte_has_its_own_value() {
    let all: Vec<u8> = (0u16..256).map(|b| b as u8).collect();
    let mut values: Vec<i8> = Vec::new();
    for (re, im) in pairs(&all) {
        values.push(re);
        values.push(im);
    }
    values.sort();
    values.dedup();
    assert_eq!(values.len(), 256);
}

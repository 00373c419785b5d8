//! Decoding of the device's interleaved signed 8-bit samples.
use crate::hertz::Hertz;
use vstd::prelude::*;

verus! {

/// Full scale of a sample: a decoded value counts in 1/128 of it. The half-range
/// of a signed byte, so that every value lies in [-1, 1).
pub const UNIT_SCALE: i16 = 128;

/// One complex sample, both parts in 1/128 of full scale.
#[derive(Clone, Copy, Debug)]
pub struct IqSample {
    pub re: i8,
    pub im: i8,
}

/// A run of samples from one channel.
#[derive(Debug)]
pub struct IqPacket {
    pub samples: Vec<IqSample>,
    pub center_frequency_hz: Hertz,
    pub sample_rate_hz: Hertz,
    /// Whether the device dropped samples. Its bulk reads do not tell.
    pub overrun: bool,
}

/// What a packet holds.
pub struct IqPacketView {
    pub samples: Seq<IqSample>,
    pub center_frequency_hz: Hertz,
    pub sample_rate_hz: Hertz,
    pub overrun: bool,
}

impl View for IqPacket {
    type V = IqPacketView;

    open spec fn view(&self) -> IqPacketView {
        IqPacketView {
            samples: self.samples@,
            center_frequency_hz: self.center_frequency_hz,
            sample_rate_hz: self.sample_rate_hz,
            overrun: self.overrun,
        }
    }
}

/// The two's-complement value of a byte.
pub open spec fn signed(byte: u8) -> int {
    if byte < 128 {
        byte as int
    } else {
        byte - 256
    }
}

/// The samples in a run of interleaved I and Q bytes. A last odd byte is dropped.
pub open spec fn decoded(bytes: Seq<u8>) -> Seq<IqSample> {
    Seq::new(
        bytes.len() / 2,
        |i: int|
            IqSample { re: signed(bytes[2 * i]) as i8, im: signed(bytes[2 * i + 1]) as i8 },
    )
}

/// Reads one byte of the converter as a signed sample, in 1/128 of full scale.
pub fn i8_to_unit(byte: u8) -> (r: i8)
    ensures
        r == signed(byte),
        -UNIT_SCALE <= r < UNIT_SCALE,
{
    assert(byte < 128 ==> byte as i8 == byte) by (bit_vector);
    assert(byte >= 128 ==> byte as i8 == byte - 256) by (bit_vector);
    byte as i8
}

/// Decodes interleaved I and Q bytes.
pub fn decode(bytes: &Vec<u8>) -> (samples: Vec<IqSample>)
    ensures
        samples@ == decoded(bytes@),
{
    let pairs: usize = bytes.len() / 2;
    let mut samples: Vec<IqSample> = Vec::with_capacity(pairs);
    let mut i: usize = 0;
    while i < pairs
        invariant
            pairs == bytes.len() / 2,
            i <= pairs,
            samples@ == decoded(bytes@).take(i as int),
        decreases pairs - i,
    {
        let re: i8 = i8_to_unit(bytes[2 * i]);
        let im: i8 = i8_to_unit(bytes[2 * i + 1]);
        samples.push(IqSample { re, im });
        i = i + 1;
    }
    assert(decoded(bytes@).take(pairs as int) =~= decoded(bytes@));
    samples
}

/// Every byte value has a sample value of its own in the unit range, with the sign of
/// the converter's reading, and -128 is exactly minus full scale.
pub proof fn law_samples_lie_in_the_unit_range(a: u8, b: u8)
    ensures
        -UNIT_SCALE <= signed(a) < UNIT_SCALE,
        signed(a) == signed(b) <==> a == b,
        signed(a) == -UNIT_SCALE <==> a == 0x80,
        signed(a) == 0 <==> a == 0,
        signed(a) < 0 <==> a >= 0x80,
{
}

/// Decoding keeps every pair: two runs of an even number of bytes that decode to
/// the same samples are the same bytes.
pub proof fn law_decoding_loses_no_pair(a: Seq<u8>, b: Seq<u8>)
    requires
        a.len() % 2 == 0,
        b.len() % 2 == 0,
        decoded(a) == decoded(b),
    ensures
        a == b,
{
    assert(decoded(a).len() == a.len() / 2 && decoded(b).len() == b.len() / 2);
    assert forall|i: int| 0 <= i < a.len() implies a[i] == b[i] by {
        let k = i / 2;
        assert(decoded(a)[k].re == decoded(b)[k].re && decoded(a)[k].im == decoded(b)[k].im);
        assert(decoded(a)[k].re == signed(a[2 * k]) && decoded(a)[k].im == signed(a[2 * k + 1]));
        assert(decoded(b)[k].re == signed(b[2 * k]) && decoded(b)[k].im == signed(b[2 * k + 1]));
        assert(2 * k == i || 2 * k + 1 == i);
    }
    assert(a =~= b);
}

/// A trailing odd byte has no effect, and reads decode piece by piece when each
/// piece holds whole pairs.
pub proof fn law_decoding_by_pieces(a: Seq<u8>, b: Seq<u8>)
    requires
        a.len() % 2 == 0,
    ensures
        decoded(a + b) == decoded(a) + decoded(b),
        b.len() == 1 ==> decoded(a + b) == decoded(a),
{
    assert(decoded(a + b) =~= decoded(a) + decoded(b)) by {
        assert forall|i: int| 0 <= i < decoded(a + b).len() implies decoded(a + b)[i] == (decoded(a)
            + decoded(b))[i] by {
            if i < a.len() / 2 {
                assert((a + b)[2 * i] == a[2 * i]);
                assert((a + b)[2 * i + 1] == a[2 * i + 1]);
            } else {
                let k = i - a.len() / 2;
                assert((a + b)[2 * i] == b[2 * k]);
                assert((a + b)[2 * i + 1] == b[2 * k + 1]);
            }
        }
    }
    if b.len() == 1 {
        assert(decoded(b) =~= Seq::<IqSample>::empty());
        assert(decoded(a) + decoded(b) =~= decoded(a));
    }
}

/// A byte is read as two's complement: its value lies in [-128, 128) and differs from
/// the byte by a multiple of 256, and it grows by one from each byte to the next but
/// across the step from 127 to -128.
pub proof fn law_bytes_are_twos_complement(byte: u8)
    ensures
        -128 <= signed(byte) < 128,
        (byte - signed(byte)) % 256 == 0,
        byte != 0x7F && byte != 0xFF ==> signed((byte + 1) as u8) == signed(byte) + 1,
        signed(0x00) == 0 && signed(0x7F) == 127 && signed(0x80) == -128 && signed(0xFF) == -1,
{
}

/// The bytes of a read alternate between the two parts of the samples: there are as
/// many samples as whole pairs, and the parts of each are its two bytes in order, each
/// up to a multiple of 256.
pub proof fn law_pairs_are_decoded_in_order(bytes: Seq<u8>, i: int)
    ensures
        2 * decoded(bytes).len() <= bytes.len() < 2 * decoded(bytes).len() + 2,
        0 <= i < decoded(bytes).len() ==> {
            &&& (bytes[2 * i] - decoded(bytes)[i].re) % 256 == 0
            &&& (bytes[2 * i + 1] - decoded(bytes)[i].im) % 256 == 0
        },
{
    if 0 <= i < decoded(bytes).len() {
        assert(decoded(bytes)[i].re == signed(bytes[2 * i]));
        assert(decoded(bytes)[i].im == signed(bytes[2 * i + 1]));
    }
}

} // verus!

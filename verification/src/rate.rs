//! The sample rate that the device is run at.
use crate::error::{ConfigFault, SdrError};
use crate::hertz::{scale, scaled_magnitude, Hertz, FRACTION_SPAN};
use vstd::arithmetic::div_mod::*;
use vstd::arithmetic::mul::*;
use vstd::arithmetic::power2::*;
use vstd::prelude::*;

verus! {

/// Highest sample rate that may be requested, in hertz. The HackRF One is a USB
/// 2.0 device; above about 20 MSPS the bulk transport drops samples wholesale.
pub const HACKRF_MAX_SAMPLE_RATE_HZ: u32 = 20_000_000;

/// `HACKRF_MAX_SAMPLE_RATE_HZ` as the bits of a double.
pub const HACKRF_MAX_SAMPLE_RATE_BITS: u64 = 0x4173_12D0_0000_0000;

/// `HACKRF_MAX_SAMPLE_RATE_HZ` as a rate.
pub open spec fn ceiling() -> Hertz {
    Hertz { bits: HACKRF_MAX_SAMPLE_RATE_BITS }
}

/// Whether a rate is a number above zero and not above the ceiling.
pub open spec fn usable_rate(rate: Hertz) -> bool {
    &&& !rate.is_nan()
    &&& 0 < rate.scaled() <= HACKRF_MAX_SAMPLE_RATE_HZ * scale()
}

/// The rate for a request and whether it was lowered to the ceiling. A request
/// that is no number gets the ceiling, which then counts as no lowering.
pub open spec fn resolved(num_channels: nat, requested: Hertz) -> Result<(Hertz, bool), SdrError> {
    if num_channels == 0 {
        Err(SdrError::BadConfig(ConfigFault::NoChannels))
    } else if requested.is_nan() {
        Ok((ceiling(), false))
    } else if requested.scaled() > HACKRF_MAX_SAMPLE_RATE_HZ * scale() {
        Ok((ceiling(), true))
    } else if requested.scaled() <= 0 {
        Err(SdrError::BadConfig(ConfigFault::InvalidSampleRate(requested)))
    } else {
        Ok((requested, false))
    }
}

/// The bits of the ceiling stand for exactly its value in hertz.
pub proof fn law_ceiling_value()
    ensures
        !ceiling().is_nan(),
        ceiling().scaled() == HACKRF_MAX_SAMPLE_RATE_HZ * scale(),
{
    let bits = HACKRF_MAX_SAMPLE_RATE_BITS as nat;
    let span = FRACTION_SPAN as nat;
    assert(bits / span == 1047 && bits % span == 0x312D0_0000_0000);
    let significand = (span + bits % span) as nat;
    assert(significand == 20_000_000 * 0x1000_0000);
    lemma2_to64();
    assert(scaled_magnitude(bits) == significand * pow2(1046));
    lemma_pow2_adds(28, 1046);
    lemma_mul_is_associative(20_000_000, pow2(28) as int, pow2(1046) as int);
}

/// Validates the number of channels and the requested sample rate, and lowers the
/// rate to the device's ceiling. Returns the rate and whether it was lowered.
pub fn resolve_sample_rate(num_channels: usize, requested: Hertz) -> (r: Result<
    (Hertz, bool),
    SdrError,
>)
    ensures
        r == resolved(num_channels as nat, requested),
{
    if num_channels == 0 {
        return Err(SdrError::BadConfig(ConfigFault::NoChannels));
    }
    let top = Hertz { bits: HACKRF_MAX_SAMPLE_RATE_BITS };
    let zero = Hertz { bits: 0 };
    proof {
        law_ceiling_value();
        assert(zero.scaled() == 0);
    }
    if requested.nan() {
        return Ok((top, false));
    }
    if top.less_than(requested) {
        return Ok((top, true));
    }
    if !zero.less_than(requested) {
        return Err(SdrError::BadConfig(ConfigFault::InvalidSampleRate(requested)));
    }
    Ok((requested, false))
}

/// A resolved rate is above zero and not above the ceiling, is the requested one
/// unless the request was above the ceiling or no number, and as whole hertz is
/// not above the ceiling either.
pub proof fn law_resolved_rate_is_usable(num_channels: nat, requested: Hertz)
    ensures
        resolved(num_channels, requested) matches Ok((rate, clamped)) ==> {
            &&& usable_rate(rate)
            &&& rate.whole(u32::MAX as nat) <= HACKRF_MAX_SAMPLE_RATE_HZ
            &&& rate == requested || rate == ceiling()
            &&& clamped <==> ceiling().below(requested)
        },
{
    law_ceiling_value();
    lemma_pow2_pos(1074);
    if let Ok((rate, _)) = resolved(num_channels, requested) {
        let top = HACKRF_MAX_SAMPLE_RATE_HZ as int;
        assert(top * scale() > 0) by (nonlinear_arith)
            requires
                top > 0,
                scale() > 0,
        ;
        lemma_div_is_ordered(rate.scaled(), top * scale() as int, scale() as int);
        lemma_div_by_multiple(top, scale() as int);
    }
}

/// Resolving a resolved rate again gives it back unchanged and not lowered.
pub proof fn law_resolving_is_idempotent(num_channels: nat, requested: Hertz)
    ensures
        resolved(num_channels, requested) matches Ok((rate, _)) ==> resolved(num_channels, rate)
            == Ok::<(Hertz, bool), SdrError>((rate, false)),
{
    law_resolved_rate_is_usable(num_channels, requested);
}

/// A request is refused only without channels or for a rate that is zero or
/// negative; more channels than one change nothing.
pub proof fn law_refused_requests(num_channels: nat, requested: Hertz)
    ensures
        resolved(num_channels, requested) is Err <==> num_channels == 0 || (!requested.is_nan()
            && requested.scaled() <= 0),
        num_channels > 0 ==> resolved(num_channels, requested) == resolved(1, requested),
{
    lemma_pow2_pos(1074);
    assert(HACKRF_MAX_SAMPLE_RATE_HZ * scale() > 0) by (nonlinear_arith)
        requires
            scale() > 0,
    ;
}

/// A request gets the smaller of what it asks for and 20 MHz: with at least one
/// channel, a rate above zero and not above 20 MHz is given as it is, bit for bit, one
/// above is answered by 20 MHz and said to be lowered, and one that is no number by
/// 20 MHz and said not to be.
pub proof fn law_the_rate_is_the_smaller_one(num_channels: nat, requested: Hertz)
    requires
        num_channels > 0,
    ensures
        ({
            let top = 20_000_000 * pow2(1074);
            let r = resolved(num_channels, requested);
            &&& requested.is_nan() ==> (r matches Ok((rate, lowered)) && !rate.is_nan()
                && rate.scaled() == top && !lowered)
            &&& !requested.is_nan() && 0 < requested.scaled() <= top ==> (r matches Ok(
                (rate, lowered),
            ) && rate.bits == requested.bits && !lowered)
            &&& !requested.is_nan() && requested.scaled() > top ==> (r matches Ok((rate, lowered))
                && !rate.is_nan() && rate.scaled() == top && lowered)
            &&& !requested.is_nan() && requested.scaled() <= 0 ==> (r matches Err(
                SdrError::BadConfig(ConfigFault::InvalidSampleRate(named)),
            ) && named.bits == requested.bits)
            &&& usable_rate(requested) <==> !requested.is_nan() && 0 < requested.scaled() <= top
        }),
        resolved(0, requested) == Err::<(Hertz, bool), SdrError>(
            SdrError::BadConfig(ConfigFault::NoChannels),
        ),
{
    law_ceiling_value();
    lemma_pow2_pos(1074);
    assert(20_000_000 * pow2(1074) > 0) by (nonlinear_arith)
        requires
            pow2(1074) > 0,
    ;
}

/// A higher request never gets a lower rate.
pub proof fn law_rates_follow_the_requests(num_channels: nat, low: Hertz, high: Hertz)
    requires
        low.below(high),
    ensures
        resolved(num_channels, low) matches Ok((a, _)) ==> {
            &&& resolved(num_channels, high) matches Ok((b, _)) && (a.below(b) || a.same(b))
        },
{
    law_ceiling_value();
}

} // verus!

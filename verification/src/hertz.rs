//! Frequencies and rates as IEEE 754 doubles, held by their bit pattern.
use vstd::arithmetic::div_mod::*;
use vstd::arithmetic::mul::*;
use vstd::arithmetic::power2::*;
use vstd::prelude::*;

verus! {

/// A frequency or a rate in hertz: the 64 bits of its IEEE 754 double.
#[derive(Clone, Copy, Debug)]
pub struct Hertz {
    pub bits: u64,
}

/// Sign bit of a double.
pub const SIGN_BIT: u64 = 0x8000_0000_0000_0000;

/// The bits of positive infinity; a larger magnitude is a NaN.
pub const INFINITY_BITS: u64 = 0x7FF0_0000_0000_0000;

/// Weight of the lowest exponent bit: two to the number of fraction bits.
pub const FRACTION_SPAN: u64 = 0x10_0000_0000_0000;

/// The power of two by which `Hertz::scaled` multiplies a value.
pub open spec fn scale() -> nat {
    pow2(1074)
}

/// The value of a non-negative double with these bits, times `scale()`.
///
/// Every finite double is a whole multiple of `1 / scale()`. Infinity gets the
/// number that its bits would stand for, which is above every finite one.
pub open spec fn scaled_magnitude(magnitude: nat) -> nat {
    let exponent = magnitude / FRACTION_SPAN as nat;
    let fraction = magnitude % FRACTION_SPAN as nat;
    if exponent == 0 {
        fraction
    } else {
        (FRACTION_SPAN + fraction) as nat * pow2((exponent - 1) as nat)
    }
}

impl Hertz {
    /// The bits below the sign bit.
    pub open spec fn magnitude(self) -> nat {
        if self.bits >= SIGN_BIT {
            (self.bits - SIGN_BIT) as nat
        } else {
            self.bits as nat
        }
    }

    /// Whether the bits stand for no number.
    pub open spec fn is_nan(self) -> bool {
        self.magnitude() > INFINITY_BITS
    }

    /// The value in hertz times `scale()`, exact for every finite double.
    pub open spec fn scaled(self) -> int {
        if self.bits >= SIGN_BIT {
            -(scaled_magnitude(self.magnitude()) as int)
        } else {
            scaled_magnitude(self.magnitude()) as int
        }
    }

    /// `self < other` on doubles.
    pub open spec fn below(self, other: Hertz) -> bool {
        !self.is_nan() && !other.is_nan() && self.scaled() < other.scaled()
    }

    /// `self == other` on doubles: a NaN equals nothing, and both zeros are equal.
    pub open spec fn same(self, other: Hertz) -> bool {
        !self.is_nan() && !other.is_nan() && self.scaled() == other.scaled()
    }

    /// The whole hertz of the value, rounded toward zero and held between zero
    /// and `max`; zero for a NaN.
    pub open spec fn whole(self, max: nat) -> nat {
        if self.is_nan() || self.scaled() <= 0 {
            0
        } else if self.scaled() / scale() as int > max {
            max
        } else {
            (self.scaled() / scale() as int) as nat
        }
    }
}

/// A larger bit pattern of a non-negative double is a larger value.
pub proof fn lemma_magnitude_order(a: nat, b: nat)
    requires
        a < b,
    ensures
        scaled_magnitude(a) < scaled_magnitude(b),
{
    let span = FRACTION_SPAN as nat;
    let ea = a / span;
    let eb = b / span;
    let fa = a % span;
    let fb = b % span;
    lemma_fundamental_div_mod(a as int, span as int);
    lemma_fundamental_div_mod(b as int, span as int);
    assert(ea <= eb) by {
        lemma_div_is_ordered(a as int, b as int, span as int);
    }
    if ea == eb {
        assert(fa < fb);
        if ea != 0 {
            let p = pow2((ea - 1) as nat);
            lemma_pow2_pos((ea - 1) as nat);
            lemma_mul_strict_inequality((span + fa) as int, (span + fb) as int, p as int);
        }
    } else {
        let q = pow2((eb - 1) as nat);
        lemma_pow2_pos((eb - 1) as nat);
        assert(span * q <= (span + fb) * q) by (nonlinear_arith);
        if ea == 0 {
            assert(span <= span * q) by (nonlinear_arith)
                requires
                    q >= 1,
            ;
        } else {
            let p = pow2((ea - 1) as nat);
            lemma_pow2_pos((ea - 1) as nat);
            lemma_pow2_unfold(ea);
            assert(pow2(ea) <= q) by {
                if ea < eb - 1 {
                    lemma_pow2_strictly_increases(ea, (eb - 1) as nat);
                }
            }
            assert((span + fa) * p < span * q) by (nonlinear_arith)
                requires
                    fa < span,
                    p >= 1,
                    2 * p <= q,
            ;
        }
    }
}

/// Two doubles of one sign have the same value only with the same bits.
proof fn lemma_magnitude_cases(a: nat, b: nat)
    ensures
        a < b <==> scaled_magnitude(a) < scaled_magnitude(b),
        a == b <==> scaled_magnitude(a) == scaled_magnitude(b),
        scaled_magnitude(0) == 0,
{
    if a < b {
        lemma_magnitude_order(a, b);
    } else if b < a {
        lemma_magnitude_order(b, a);
    }
}

/// How the quotient by `scale()` follows from the exponent and the fraction.
proof fn lemma_whole_bits(bits: u64)
    ensures
        ({
            let exponent = bits as nat / FRACTION_SPAN as nat;
            let significand = (FRACTION_SPAN + bits as nat % FRACTION_SPAN as nat) as nat;
            let whole = scaled_magnitude(bits as nat) as int / scale() as int;
            &&& exponent < 1023 ==> whole == 0
            &&& 1023 <= exponent < 1075 ==> whole == significand as int / pow2(
                (1075 - exponent) as nat,
            ) as int
            &&& 1075 <= exponent ==> whole == significand * pow2((exponent - 1075) as nat)
        }),
{
    let span = FRACTION_SPAN as nat;
    let exponent = bits as nat / span;
    let fraction = bits as nat % span;
    let significand = span + fraction;
    let value = scaled_magnitude(bits as nat);
    lemma_pow2_pos(1074);
    lemma2_to64();
    lemma2_to64_rest();
    if exponent >= 1075 {
        let up = (exponent - 1075) as nat;
        lemma_pow2_adds(up, 1074);
        lemma_mul_is_associative(significand as int, pow2(up) as int, pow2(1074) as int);
        lemma_div_by_multiple((significand * pow2(up)) as int, pow2(1074) as int);
    } else if exponent >= 1 {
        let low = (exponent - 1) as nat;
        let down = (1075 - exponent) as nat;
        lemma_pow2_adds(low, down);
        lemma_pow2_pos(low);
        lemma_pow2_pos(down);
        lemma_mul_is_commutative(significand as int, pow2(low) as int);
        lemma_div_multiples_vanish_quotient(
            pow2(low) as int,
            significand as int,
            pow2(down) as int,
        );
        if exponent < 1023 {
            assert(significand < pow2(53));
            if down > 53 {
                lemma_pow2_strictly_increases(53, down);
            }
            lemma_basic_div(significand as int, pow2(down) as int);
        }
    } else {
        assert(fraction < pow2(52));
        lemma_pow2_strictly_increases(52, 1074);
        lemma_basic_div(fraction as int, pow2(1074) as int);
    }
}

/// A significand shifted by at most eleven places fits in 64 bits.
proof fn lemma_shift_fits(significand: u64, shift: u64)
    requires
        significand < 2 * FRACTION_SPAN,
        shift <= 11,
    ensures
        significand * pow2(shift as nat) <= u64::MAX,
{
    lemma2_to64();
    if shift < 11 {
        lemma_pow2_strictly_increases(shift as nat, 11);
    }
    assert(significand * pow2(shift as nat) <= u64::MAX) by (nonlinear_arith)
        requires
            significand <= 0x1F_FFFF_FFFF_FFFF,
            0 <= pow2(shift as nat) <= 2048,
    ;
}

impl Hertz {
    /// Whether the bits stand for no number.
    pub fn nan(self) -> (r: bool)
        ensures
            r == self.is_nan(),
    {
        self.magnitude_bits() > INFINITY_BITS
    }

    fn magnitude_bits(self) -> (r: u64)
        ensures
            r == self.magnitude(),
    {
        if self.bits >= SIGN_BIT {
            self.bits - SIGN_BIT
        } else {
            self.bits
        }
    }

    /// `self < other` as doubles compare.
    pub fn less_than(self, other: Hertz) -> (r: bool)
        ensures
            r == self.below(other),
    {
        if self.nan() || other.nan() {
            return false;
        }
        let a: u64 = self.magnitude_bits();
        let b: u64 = other.magnitude_bits();
        proof {
            lemma_magnitude_cases(a as nat, b as nat);
            lemma_magnitude_cases(0, a as nat);
            lemma_magnitude_cases(0, b as nat);
        }
        if self.bits >= SIGN_BIT {
            if other.bits >= SIGN_BIT {
                a > b
            } else {
                a > 0 || b > 0
            }
        } else {
            other.bits < SIGN_BIT && a < b
        }
    }

    /// `self == other` as doubles compare.
    pub fn equals(self, other: Hertz) -> (r: bool)
        ensures
            r == self.same(other),
    {
        if self.nan() || other.nan() {
            return false;
        }
        let a: u64 = self.magnitude_bits();
        let b: u64 = other.magnitude_bits();
        proof {
            lemma_magnitude_cases(a as nat, b as nat);
            lemma_magnitude_cases(0, a as nat);
            lemma_magnitude_cases(0, b as nat);
        }
        self.bits == other.bits || (a == 0 && b == 0)
    }

    /// The value rounded toward zero as a `u64`: zero for a NaN or a negative
    /// value, the largest `u64` for a value above it.
    pub fn whole_u64(self) -> (r: u64)
        ensures
            r == self.whole(u64::MAX as nat),
    {
        proof {
            lemma_magnitude_cases(0, self.magnitude());
        }
        if self.nan() || self.bits >= SIGN_BIT {
            return 0;
        }
        let exponent: u64 = self.bits / FRACTION_SPAN;
        let fraction: u64 = self.bits % FRACTION_SPAN;
        proof {
            lemma_whole_bits(self.bits);
        }
        if exponent < 1023 {
            return 0;
        }
        let significand: u64 = FRACTION_SPAN + fraction;
        if exponent < 1075 {
            let shift: u64 = 1075 - exponent;
            proof {
                vstd::bits::lemma_u64_shr_is_div(significand, shift);
                lemma_pow2_pos(shift as nat);
                lemma_div_is_ordered_by_denominator(
                    significand as int,
                    1,
                    pow2(shift as nat) as int,
                );
            }
            significand >> shift
        } else if exponent <= 1086 {
            let shift: u64 = exponent - 1075;
            proof {
                lemma_shift_fits(significand, shift);
                vstd::bits::lemma_u64_shl_is_mul(significand, shift);
            }
            significand << shift
        } else {
            proof {
                let shift = (exponent - 1075) as nat;
                lemma_pow2_unfold(12);
                lemma2_to64();
                if shift > 12 {
                    lemma_pow2_strictly_increases(12, shift);
                }
                assert(significand * pow2(shift) > u64::MAX) by (nonlinear_arith)
                    requires
                        significand >= 0x10_0000_0000_0000,
                        pow2(shift) >= 4096,
                ;
            }
            u64::MAX
        }
    }

    /// The value rounded toward zero as a `u32`, with the same edges as `whole_u64`.
    pub fn whole_u32(self) -> (r: u32)
        ensures
            r == self.whole(u32::MAX as nat),
    {
        let whole: u64 = self.whole_u64();
        proof {
            lemma_pow2_pos(1074);
            if self.scaled() > 0 {
                lemma_div_pos_is_pos(self.scaled(), scale() as int);
            }
        }
        if whole > u32::MAX as u64 {
            u32::MAX
        } else {
            whole as u32
        }
    }
}

/// What the bits of a double are worth, in steps of the smallest positive double: the
/// first two binades are counted out one by one, each further binade is worth twice
/// the one before it, and the sign bit turns the value round.
pub proof fn law_value_of_the_bits(bits: u64)
    requires
        bits < 0x8000_0000_0000_0000,
    ensures
        bits < 0x20_0000_0000_0000 ==> (Hertz { bits }).scaled() == bits,
        0x10_0000_0000_0000 <= bits && bits + 0x10_0000_0000_0000 < 0x8000_0000_0000_0000 ==> (Hertz {
            bits: (bits + 0x10_0000_0000_0000) as u64,
        }).scaled() == 2 * (Hertz { bits }).scaled(),
        (Hertz { bits: (bits + 0x8000_0000_0000_0000) as u64 }).scaled() == -(Hertz {
            bits,
        }).scaled(),
        scale() == pow2(1074),
{
    let span = FRACTION_SPAN as nat;
    let e = bits as nat / span;
    let f = bits as nat % span;
    lemma_fundamental_div_mod(bits as int, span as int);
    lemma2_to64();
    if bits < 0x20_0000_0000_0000 && e != 0 {
        assert(e == 1);
        assert(((span + f) as nat) * pow2(0) == span + f) by (nonlinear_arith)
            requires
                pow2(0) == 1,
        ;
    }
    if bits >= 0x10_0000_0000_0000 && bits + 0x10_0000_0000_0000 < 0x8000_0000_0000_0000 {
        let up = bits as nat + span;
        assert(up / span == e + 1 && up % span == f) by {
            lemma_fundamental_div_mod_converse(up as int, span as int, e as int + 1, f as int);
        }
        lemma_pow2_unfold(e);
        let p = pow2((e - 1) as nat);
        assert((span + f) * (2 * p) == 2 * ((span + f) * p)) by (nonlinear_arith);
    }
}

/// Doubles compare by their bits: a NaN is the pattern above infinity and compares
/// with nothing, a larger pattern is a larger value among those that are not negative
/// and a smaller one among those that are, and the two zeros are one value.
pub proof fn law_doubles_compare_by_their_bits(a: Hertz, b: Hertz)
    ensures
        a.is_nan() <==> a.bits % 0x8000_0000_0000_0000 > 0x7FF0_0000_0000_0000,
        a.same(b) <==> !a.is_nan() && !b.is_nan() && (a.bits == b.bits || (a.bits
            % 0x8000_0000_0000_0000 == 0 && b.bits % 0x8000_0000_0000_0000 == 0)),
        a.below(b) <==> !a.is_nan() && !b.is_nan() && if a.bits < 0x8000_0000_0000_0000 {
            b.bits < 0x8000_0000_0000_0000 && a.bits < b.bits
        } else if b.bits < 0x8000_0000_0000_0000 {
            a.bits != 0x8000_0000_0000_0000 || b.bits != 0
        } else {
            a.bits > b.bits
        },
{
    lemma_magnitude_cases(a.magnitude(), b.magnitude());
    lemma_magnitude_cases(0, a.magnitude());
    lemma_magnitude_cases(0, b.magnitude());
}

/// Of any two doubles that are numbers, exactly one is below the other or they are the
/// same; order and sameness carry over from one pair to the next.
pub proof fn law_doubles_are_ordered(a: Hertz, b: Hertz, c: Hertz)
    requires
        !a.is_nan(),
        !b.is_nan(),
        !c.is_nan(),
    ensures
        a.below(b) || b.below(a) || a.same(b),
        !(a.below(b) && b.below(a)) && !(a.below(b) && a.same(b)),
        a.below(b) && b.below(c) ==> a.below(c),
        a.same(b) && b.same(c) ==> a.same(c),
        a.same(b) && b.below(c) ==> a.below(c),
        a.same(a) && (a.same(b) ==> b.same(a)),
{
}

/// The whole hertz of a value are the most that do not exceed it, up to a limit; a
/// value that is not above zero has none.
pub proof fn law_whole_hertz_do_not_exceed_the_value(h: Hertz, max: nat)
    ensures
        h.is_nan() || h.scaled() <= 0 ==> h.whole(max) == 0,
        h.whole(max) <= max,
        !h.is_nan() && h.scaled() > 0 ==> h.whole(max) * pow2(1074) <= h.scaled(),
        !h.is_nan() && h.scaled() > 0 && h.whole(max) < max ==> h.scaled() < (h.whole(max) + 1)
            * pow2(1074),
{
    lemma_pow2_pos(1074);
    let unit = pow2(1074) as int;
    if !h.is_nan() && h.scaled() > 0 {
        let q = h.scaled() / unit;
        lemma_fundamental_div_mod(h.scaled(), unit);
        lemma_mod_bound(h.scaled(), unit);
        lemma_div_pos_is_pos(h.scaled(), unit);
        lemma_mul_is_commutative(unit, q);
        lemma_mul_is_distributive_add_other_way(unit, q, 1);
        if q > max {
            lemma_mul_inequality(max as int, q, unit);
        }
    }
}

} // verus!

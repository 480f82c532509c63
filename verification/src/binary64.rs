//! Numbers in the IEEE 754 binary64 encoding, compared by value.

use vstd::arithmetic::power2::lemma_pow2_pos;
use vstd::arithmetic::power2::lemma_pow2_strictly_increases;
use vstd::arithmetic::power2::lemma_pow2_unfold;
use vstd::arithmetic::power2::pow2;
use vstd::prelude::*;

verus! {

/// Size of the fraction field: one more than its largest value.
pub const FRACTION_RANGE: u64 = 0x0010_0000_0000_0000;

/// The sign bit.
pub const SIGN: u64 = 0x8000_0000_0000_0000;

/// Magnitude of the two infinities; every larger magnitude is a NaN.
pub const INFINITY: u64 = 0x7ff0_0000_0000_0000;

/// A binary64 number, held as its bit pattern.
#[derive(Debug, Clone, Copy)]
pub struct Binary64 {
    pub bits: u64,
}

/// The bit pattern without its sign.
pub open spec fn magnitude(bits: u64) -> int {
    if bits >= SIGN {
        bits - SIGN
    } else {
        bits as int
    }
}

/// The number that a magnitude encodes, as a multiple of the smallest positive
/// binary64 number.
///
/// A magnitude is an exponent field above a fraction field. A zero exponent
/// marks a subnormal number; any other has a leading one above its fraction.
/// An infinity counts as the number that would follow the largest finite one.
pub open spec fn scaled(magnitude: int) -> int {
    let exponent = magnitude / (FRACTION_RANGE as int);
    let fraction = magnitude % (FRACTION_RANGE as int);
    if exponent == 0 {
        fraction
    } else {
        (FRACTION_RANGE + fraction) * pow2((exponent - 1) as nat)
    }
}

impl Binary64 {
    /// Whether the pattern encodes no number at all.
    pub open spec fn nan(self) -> bool {
        magnitude(self.bits) > INFINITY
    }

    /// The encoded number, as a multiple of the smallest positive one.
    pub open spec fn number(self) -> int {
        if self.bits >= SIGN {
            -scaled(magnitude(self.bits))
        } else {
            scaled(magnitude(self.bits))
        }
    }

    /// The IEEE 754 `>=`: false as soon as a NaN takes part.
    pub open spec fn reaches(self, other: Binary64) -> bool {
        !self.nan() && !other.nan() && self.number() >= other.number()
    }

    /// Whether `self` is a number not below the number `other`.
    pub fn at_least(self, other: Binary64) -> (result: bool)
        ensures
            result == self.reaches(other),
            self.nan() || other.nan() ==> !result,
            !self.nan() && !other.nan() ==> result == (self.number() >= other.number()),
    {
        let (left_negative, left): (bool, u64) = split(self.bits);
        let (right_negative, right): (bool, u64) = split(other.bits);
        proof {
            larger_magnitude_is_larger(left as int, right as int);
            larger_magnitude_is_larger(right as int, left as int);
            larger_magnitude_is_larger(0, left as int);
            larger_magnitude_is_larger(0, right as int);
            assert(scaled(0) == 0);
        }
        if left > INFINITY || right > INFINITY {
            false
        } else if left_negative {
            if right_negative {
                left <= right
            } else {
                left == 0 && right == 0
            }
        } else {
            right_negative || left >= right
        }
    }
}

/// Takes the sign off a bit pattern.
fn split(bits: u64) -> (result: (bool, u64))
    ensures
        result.0 == (bits >= SIGN),
        result.1 == magnitude(bits),
{
    if bits >= SIGN {
        (true, bits - SIGN)
    } else {
        (false, bits)
    }
}

/// A larger magnitude encodes a larger number, so numbers of one sign compare as
/// their bit patterns do.
pub proof fn larger_magnitude_is_larger(low: int, high: int)
    requires
        0 <= low,
    ensures
        low < high ==> scaled(low) < scaled(high),
        scaled(low) >= 0,
{
    let range = FRACTION_RANGE as int;
    let e1 = low / range;
    let f1 = low % range;
    if e1 > 0 {
        lemma_pow2_pos((e1 - 1) as nat);
        assert((range + f1) * pow2((e1 - 1) as nat) >= 0) by (nonlinear_arith)
            requires
                range + f1 >= 0,
                pow2((e1 - 1) as nat) > 0,
        ;
    }
    if low < high {
        let e2 = high / range;
        let f2 = high % range;
        if e1 == e2 {
            if e1 > 0 {
                let p = pow2((e1 - 1) as nat) as int;
                assert((range + f1) * p < (range + f2) * p) by (nonlinear_arith)
                    requires
                        f1 < f2,
                        p > 0,
                ;
            }
        } else {
            assert(e1 < e2);
            let p2 = pow2((e2 - 1) as nat) as int;
            lemma_pow2_pos((e2 - 1) as nat);
            assert((range + f2) * p2 >= range * p2) by (nonlinear_arith)
                requires
                    f2 >= 0,
                    p2 > 0,
            ;
            if e1 == 0 {
                assert(range * p2 >= range) by (nonlinear_arith)
                    requires
                        p2 > 0,
                        range > 0,
                ;
            } else {
                let p1 = pow2((e1 - 1) as nat) as int;
                lemma_pow2_unfold(e1 as nat);
                assert(pow2(e1 as nat) == 2 * p1);
                if e1 < e2 - 1 {
                    lemma_pow2_strictly_increases(e1 as nat, (e2 - 1) as nat);
                }
                assert(p2 >= 2 * p1);
                assert((range + f1) * p1 < range * p2) by (nonlinear_arith)
                    requires
                        0 <= f1 < range,
                        p1 > 0,
                        p2 >= 2 * p1,
                ;
            }
        }
    }
}

/// Among numbers, `reaches` is a total order: any two compare, and two that
/// reach each other are the same number.
pub proof fn numbers_compare(a: Binary64, b: Binary64, c: Binary64)
    requires
        !a.nan(),
        !b.nan(),
        !c.nan(),
    ensures
        a.reaches(b) || b.reaches(a),
        a.reaches(b) && b.reaches(a) ==> a.number() == b.number(),
        a.reaches(b) && b.reaches(c) ==> a.reaches(c),
{
}

/// A NaN reaches nothing, and nothing reaches it.
pub proof fn nan_compares_with_nothing(nan: Binary64, other: Binary64)
    requires
        nan.nan(),
    ensures
        !nan.reaches(other),
        !other.reaches(nan),
{
}

/// How bit patterns compare: a pattern above that of either infinity is no number
/// and compares with nothing; numbers without a sign compare as their patterns,
/// those with one the other way round; a number without a sign is at least one
/// with it; and the two zeros are the same number.
pub proof fn patterns_compare(a: Binary64, b: Binary64)
    ensures
        a.nan() <==> 0x7ff0_0000_0000_0000 < a.bits < 0x8000_0000_0000_0000 || a.bits
            > 0xfff0_0000_0000_0000,
        a.nan() || b.nan() ==> !a.reaches(b),
        !a.nan() && !b.nan() ==> a.reaches(b) == if a.bits < 0x8000_0000_0000_0000 {
            b.bits >= 0x8000_0000_0000_0000 || a.bits >= b.bits
        } else if b.bits >= 0x8000_0000_0000_0000 {
            a.bits <= b.bits
        } else {
            a.bits == 0x8000_0000_0000_0000 && b.bits == 0
        },
{
    let left = magnitude(a.bits);
    let right = magnitude(b.bits);
    larger_magnitude_is_larger(left, right);
    larger_magnitude_is_larger(right, left);
    larger_magnitude_is_larger(0, left);
    larger_magnitude_is_larger(0, right);
    assert(scaled(0) == 0);
}

/// The whole numbers up to the size of the fraction field are encoded as such, in
/// units of the smallest positive number; from there on, one more in the exponent
/// field doubles the number.
pub proof fn an_exponent_doubles(magnitude: int)
    requires
        0 <= magnitude,
    ensures
        magnitude < 0x0020_0000_0000_0000 ==> scaled(magnitude) == magnitude,
        magnitude >= 0x0010_0000_0000_0000 ==> scaled(magnitude + 0x0010_0000_0000_0000) == 2
            * scaled(magnitude),
{
    let range = FRACTION_RANGE as int;
    let exponent = magnitude / range;
    let fraction = magnitude % range;
    lemma_pow2_pos(0);
    vstd::arithmetic::power2::lemma2_to64();
    assert(pow2(0) == 1);
    if magnitude >= range {
        assert(exponent >= 1);
        if magnitude < 2 * range {
            assert(exponent == 1 && fraction == magnitude - range);
            assert(pow2((exponent - 1) as nat) == 1);
            assert((range + fraction) * 1 == magnitude);
        }
        let next = magnitude + range;
        assert(next / range == exponent + 1 && next % range == fraction) by (nonlinear_arith)
            requires
                range > 0,
                exponent == magnitude / range,
                fraction == magnitude % range,
                next == magnitude + range,
        ;
        lemma_pow2_unfold(exponent as nat);
        let p = pow2((exponent - 1) as nat) as int;
        assert((range + fraction) * (2 * p) == 2 * ((range + fraction) * p)) by (nonlinear_arith);
    }
}

} // verus!

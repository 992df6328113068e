//! Binary64 quantities as bit patterns.
//!
//! A pattern has a sign in bit 63, an exponent in bits 62 to 52 and a
//! fraction in bits 51 to 0. Without the sign bit it is the magnitude. The
//! magnitudes below [`INFINITY_MAGNITUDE`] are the finite numbers, the one
//! at it is infinity, and those above it are not numbers.
//!
//! Prices are ordered by [`price_rank`], the magnitude with the sign
//! applied. [`lemma_rank_orders_values`] shows that this is the order of the
//! numbers that finite patterns stand for, with both zeros at rank 0.

use vstd::arithmetic::mul::{lemma_mul_inequality, lemma_mul_strict_inequality};
use vstd::arithmetic::power2::{lemma_pow2_pos, lemma_pow2_strictly_increases, lemma_pow2_unfold, pow2};
use vstd::prelude::*;

verus! {

/// The pattern of negative zero: the sign bit alone.
pub const SIGN_BIT: u64 = 0x8000_0000_0000_0000;

/// The magnitude of the infinities. A larger magnitude is not a number.
pub const INFINITY_MAGNITUDE: u64 = 0x7FF0_0000_0000_0000;

/// A price and the size that rests at it, each as a binary64 bit pattern.
pub type PriceLevel = (u64, u64);

/// The pattern without its sign bit.
pub open spec fn magnitude(bits: u64) -> int {
    if bits < SIGN_BIT {
        bits as int
    } else {
        bits - SIGN_BIT
    }
}

/// Whether the pattern is that of a number other than an infinity.
pub open spec fn is_finite(bits: u64) -> bool {
    magnitude(bits) < INFINITY_MAGNITUDE
}

/// The signed magnitude of a pattern: the integer by which prices are ordered.
pub open spec fn price_rank(bits: u64) -> int {
    if bits < SIGN_BIT {
        bits as int
    } else {
        SIGN_BIT - bits
    }
}

/// Tells whether a pattern stands for a finite number.
pub fn price_is_finite(bits: u64) -> (r: bool)
    ensures
        r == is_finite(bits),
{
    if bits < SIGN_BIT {
        bits < INFINITY_MAGNITUDE
    } else {
        bits - SIGN_BIT < INFINITY_MAGNITUDE
    }
}

/// Tells whether the first price is at most the second.
pub fn price_le(a: u64, b: u64) -> (r: bool)
    ensures
        r == (price_rank(a) <= price_rank(b)),
{
    if a < SIGN_BIT {
        if b < SIGN_BIT {
            a <= b
        } else {
            a == 0 && b == SIGN_BIT
        }
    } else {
        if b < SIGN_BIT {
            true
        } else {
            b <= a
        }
    }
}

/// The rank is the magnitude with the sign applied, and the two zeros are
/// the only distinct patterns of equal rank.
pub proof fn lemma_rank_identifies_patterns(a: u64, b: u64)
    ensures
        price_rank(a) == price_rank(b) <==> a == b || (magnitude(a) == 0 && magnitude(b) == 0),
        price_rank(a) == if a < SIGN_BIT { magnitude(a) } else { -magnitude(a) },
{
}

/// The least magnitude with an exponent other than zero: two to the power
/// of 52, one more than the largest fraction.
pub const HIDDEN_BIT: u64 = 0x10_0000_0000_0000;

/// The number that a magnitude stands for, counted in units of two to the
/// power of -1074, the smallest positive binary64 number. With exponent
/// field `e` and fraction `f` that is `f` where `e` is zero, and
/// `(2^52 + f) * 2^(e - 1)` where it is not.
pub open spec fn magnitude_value(magnitude: int) -> int {
    let exponent = magnitude / (HIDDEN_BIT as int);
    let fraction = magnitude % (HIDDEN_BIT as int);
    if exponent == 0 {
        fraction
    } else {
        (HIDDEN_BIT + fraction) * pow2((exponent - 1) as nat)
    }
}

/// The number that a finite pattern stands for, in the same units.
pub open spec fn scaled_value(bits: u64) -> int
    recommends
        is_finite(bits),
{
    if bits < SIGN_BIT {
        magnitude_value(magnitude(bits))
    } else {
        -magnitude_value(magnitude(bits))
    }
}

/// A larger magnitude stands for a larger number.
pub proof fn lemma_magnitude_value_increases(low: int, high: int)
    requires
        0 <= low < high,
    ensures
        0 <= magnitude_value(low) < magnitude_value(high),
{
    let h = HIDDEN_BIT as int;
    let e1 = low / h;
    let f1 = low % h;
    let e2 = high / h;
    let f2 = high % h;
    assert(e1 <= e2 && (e1 == e2 ==> f1 < f2));
    if e2 > 0 {
        let p2 = pow2((e2 - 1) as nat);
        lemma_pow2_pos((e2 - 1) as nat);
        if e1 == e2 {
            lemma_mul_strict_inequality(h + f1, h + f2, p2 as int);
            lemma_mul_inequality(0, h + f1, p2 as int);
        } else {
            // The number of `high` is at least two to the power of 52 + e2 - 1.
            lemma_mul_inequality(h, h + f2, p2 as int);
            if e1 == 0 {
                lemma_mul_inequality(1, p2 as int, h);
            } else {
                // The number of `low` is less than two to the power of 52 + e1.
                let p1 = pow2((e1 - 1) as nat);
                lemma_pow2_pos((e1 - 1) as nat);
                lemma_pow2_unfold(e1 as nat);
                lemma_mul_strict_inequality(h + f1, 2 * h, p1 as int);
                lemma_mul_inequality(0, h + f1, p1 as int);
                assert(2 * h * p1 == h * (2 * p1)) by (nonlinear_arith);
                if e1 < e2 - 1 {
                    lemma_pow2_strictly_increases(e1 as nat, (e2 - 1) as nat);
                }
                lemma_mul_inequality(pow2(e1 as nat) as int, p2 as int, h);
                assert(h * pow2(e1 as nat) == pow2(e1 as nat) * h) by (nonlinear_arith);
                assert(h * p2 == p2 * h) by (nonlinear_arith);
            }
        }
    }
}

/// The rank orders finite patterns as the numbers that they stand for are
/// ordered, and two patterns have one rank exactly if they stand for one
/// number.
pub proof fn lemma_rank_orders_values(a: u64, b: u64)
    requires
        is_finite(a),
        is_finite(b),
    ensures
        price_rank(a) <= price_rank(b) <==> scaled_value(a) <= scaled_value(b),
        price_rank(a) == price_rank(b) <==> scaled_value(a) == scaled_value(b),
{
    let ma = magnitude(a);
    let mb = magnitude(b);
    assert(magnitude_value(0) == 0);
    if ma < mb {
        lemma_magnitude_value_increases(ma, mb);
    }
    if mb < ma {
        lemma_magnitude_value_increases(mb, ma);
    }
    if 0 < ma {
        lemma_magnitude_value_increases(0, ma);
    }
    if 0 < mb {
        lemma_magnitude_value_increases(0, mb);
    }
}

/// A price and a size as they were read from decimal text: each is the bit
/// pattern of the number read, or nothing where the text was no number.
pub type DecimalPair = (Option<u64>, Option<u64>);

/// Every price and every size was read as a number.
pub open spec fn all_decoded(fields: Seq<DecimalPair>) -> bool {
    forall|i: int| 0 <= i < fields.len() ==> (#[trigger] fields[i]).0 is Some && fields[i].1 is Some
}

/// The levels that the pairs stand for, in their order.
pub open spec fn decoded_levels(fields: Seq<DecimalPair>) -> Seq<PriceLevel>
    recommends
        all_decoded(fields),
{
    Seq::new(fields.len(), |i: int| (fields[i].0->Some_0, fields[i].1->Some_0))
}

/// Turns pairs that were all read as numbers into levels. Where a price or
/// a size is missing there is no result.
pub fn decode_levels(fields: &Vec<DecimalPair>) -> (r: Option<Vec<PriceLevel>>)
    ensures
        r is Some <==> all_decoded(fields@),
        r is Some ==> r->Some_0@ == decoded_levels(fields@),
{
    let mut levels: Vec<PriceLevel> = Vec::new();
    let mut i: usize = 0;
    while i < fields.len()
        invariant
            i <= fields.len(),
            all_decoded(fields@.take(i as int)),
            levels@ == decoded_levels(fields@.take(i as int)),
        decreases fields.len() - i,
    {
        let (price, size) = fields[i];
        match (price, size) {
            (Some(p), Some(s)) => {
                levels.push((p, s));
            },
            _ => {
                return None;
            },
        }
        proof {
            assert forall|k: int| 0 <= k < i + 1 implies (#[trigger] fields@.take(i + 1)[k]).0
                is Some && fields@.take(i + 1)[k].1 is Some by {
            }
        }
        i += 1;
    }
    proof {
        assert(fields@.take(i as int) == fields@);
    }
    Some(levels)
}

} // verus!

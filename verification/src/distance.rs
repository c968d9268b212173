//! Distances as ordered keys.
//!
//! A distance is carried as the bit pattern of a non-negative
//! double-precision number, read as an unsigned integer: eleven bits of
//! exponent above fifty-two bits of fraction, the sign bit clear. The search
//! for the closest intersection compares keys as integers. This module says
//! which number a key stands for and proves that the two orders agree.

use vstd::prelude::*;
use vstd::arithmetic::power2::{
    lemma_pow2_pos, lemma_pow2_strictly_increases, lemma_pow2_unfold, pow2,
};

verus! {

/// The key of the largest finite number. A key at or above it (that number
/// itself, an infinity, a NaN, any pattern with the sign bit set) never
/// counts as the distance of a hit.
pub const HORIZON: u64 = 0x7FEF_FFFF_FFFF_FFFF;

/// Two to the power fifty-two: the weight of the lowest exponent bit.
pub open spec fn fraction_range() -> nat {
    0x10_0000_0000_0000
}

/// The exponent field of a key.
pub open spec fn exponent_field(key: u64) -> nat {
    key as nat / fraction_range()
}

/// The fraction field of a key.
pub open spec fn fraction_field(key: u64) -> nat {
    key as nat % fraction_range()
}

/// The number that a key up to the horizon stands for, counted in units of
/// two to the power -1074, the smallest positive number of the format. With
/// a zero exponent field the number is the fraction itself, without the
/// implied leading bit.
pub open spec fn magnitude(key: u64) -> nat {
    if exponent_field(key) == 0 {
        fraction_field(key)
    } else {
        (fraction_range() + fraction_field(key)) * pow2((exponent_field(key) - 1) as nat)
    }
}

/// A key with the smaller exponent field stands for the smaller number.
proof fn smaller_exponent_is_smaller_number(a: u64, b: u64)
    requires
        exponent_field(a) < exponent_field(b),
    ensures
        magnitude(a) < magnitude(b),
{
    let ea = exponent_field(a);
    let eb = exponent_field(b);
    let fa = fraction_field(a);
    let fb = fraction_field(b);
    let top = pow2((eb - 1) as nat);
    lemma_pow2_pos((eb - 1) as nat);
    assert(fraction_range() * top <= (fraction_range() + fb) * top) by (nonlinear_arith)
        requires
            top > 0,
            fb >= 0,
    ;
    if ea == 0 {
        assert(fraction_range() * 1 <= fraction_range() * top) by (nonlinear_arith)
            requires
                top >= 1,
        ;
    } else {
        let low = pow2((ea - 1) as nat);
        lemma_pow2_pos((ea - 1) as nat);
        lemma_pow2_unfold(ea);
        if ea < eb - 1 {
            lemma_pow2_strictly_increases(ea, (eb - 1) as nat);
        }
        assert(pow2(ea) <= top);
        assert((fraction_range() + fa) * low < fraction_range() * (2 * low)) by (nonlinear_arith)
            requires
                fa < fraction_range(),
                low > 0,
        ;
        assert(fraction_range() * pow2(ea) <= fraction_range() * top) by (nonlinear_arith)
            requires
                pow2(ea) <= top,
        ;
    }
}

/// Keys up to the horizon are ordered as the numbers that they stand for.
pub proof fn key_order_is_numeric_order(a: u64, b: u64)
    requires
        a <= HORIZON,
        b <= HORIZON,
    ensures
        a < b <==> magnitude(a) < magnitude(b),
{
    let ea = exponent_field(a);
    let eb = exponent_field(b);
    let fa = fraction_field(a);
    let fb = fraction_field(b);
    assert(a == ea * fraction_range() + fa && b == eb * fraction_range() + fb);
    if ea < eb {
        smaller_exponent_is_smaller_number(a, b);
        assert(a < b) by (nonlinear_arith)
            requires
                a == ea * fraction_range() + fa,
                b == eb * fraction_range() + fb,
                fa < fraction_range(),
                ea < eb,
                fb >= 0,
        ;
    } else if eb < ea {
        smaller_exponent_is_smaller_number(b, a);
        assert(b < a) by (nonlinear_arith)
            requires
                a == ea * fraction_range() + fa,
                b == eb * fraction_range() + fb,
                fb < fraction_range(),
                eb < ea,
                fa >= 0,
        ;
    } else if ea != 0 {
        let scale = pow2((ea - 1) as nat);
        lemma_pow2_pos((ea - 1) as nat);
        assert(fa < fb <==> (fraction_range() + fa) * scale < (fraction_range() + fb) * scale)
            by (nonlinear_arith)
            requires
                scale > 0,
        ;
    }
}

} // verus!

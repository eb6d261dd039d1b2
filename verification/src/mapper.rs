use vstd::prelude::*;

use vstd::arithmetic::div_mod::{
    lemma_basic_div, lemma_div_is_ordered, lemma_div_is_ordered_by_denominator,
    lemma_div_multiples_vanish_fancy, lemma_div_pos_is_pos,
};
use vstd::arithmetic::mul::lemma_mul_inequality;
use vstd::math::abs;

verus! {

/// Mapped pixel coordinates are clamped to this magnitude, far beyond any
/// real surface, so that screen-space arithmetic on them cannot overflow.
/// Points inside the resolved axis range are never clamped.
pub const PIXEL_CLAMP: i64 = 0x4000_0000_0000;

/// The quotient `a / b` rounded to the nearest integer, halves away from
/// zero, as the pixel mapping rounds it.
pub open spec fn round_div(a: int, b: int) -> int
    recommends
        b != 0,
{
    let q = (2 * (abs(a) as int) + abs(b) as int) / (2 * (abs(b) as int));
    if (a >= 0) == (b >= 0) {
        q
    } else {
        -q
    }
}

/// Clamps a pixel coordinate to the representable band.
pub open spec fn clamp_pixel(v: int) -> int {
    if v > PIXEL_CLAMP as int {
        PIXEL_CLAMP as int
    } else if v < -(PIXEL_CLAMP as int) {
        -(PIXEL_CLAMP as int)
    } else {
        v
    }
}

/// Where a data-space scalar lands on a one-dimensional pixel axis:
/// `round(((pt - min) / (max - min)) * (length - space)) + space`, with the
/// degenerate axis (`max == min`) pinned to the fixed midpoint pixel
/// instead of an undefined value.
pub open spec fn map_pixel(pt: int, min: int, max: int, length: int, space: int) -> int {
    if max == min {
        (length + space) / 2
    } else {
        clamp_pixel(round_div((pt - min) * (length - space), max - min) + space)
    }
}

/// Maps one data-space coordinate to a pixel coordinate.
///
/// `space` is the margin offset and `length` the inner plotting length, both
/// in pixels taken from the window's dimensions. A boundary value maps
/// exactly: the axis minimum to `space`, the axis maximum to `length`; a
/// degenerate axis maps every point to the fixed midpoint pixel.
pub fn point2plot(pt: i64, min: i64, max: i64, length: i64, space: i64) -> (r: i64)
    requires
        0 <= space <= length <= u32::MAX as i64,
    ensures
        r == map_pixel(pt as int, min as int, max as int, length as int, space as int),
        -PIXEL_CLAMP <= r <= PIXEL_CLAMP,
        max == min ==> r == (length + space) / 2,
        max != min && pt == min ==> r == space,
        max != min && pt == max ==> r == length,
{
    if max == min {
        let mid: u64 = (length as u64 + space as u64) / 2;
        return mid as i64;
    }
    let na: u128 = if pt >= min {
        (pt as i128 - min as i128) as u128
    } else {
        (min as i128 - pt as i128) as u128
    };
    let da: u128 = if max >= min {
        (max as i128 - min as i128) as u128
    } else {
        (min as i128 - max as i128) as u128
    };
    let dl: u128 = (length - space) as u128;
    proof {
        assert((na as int) * (dl as int) <= (0x10000000000000000 as int) * (0x100000000 as int))
            by (nonlinear_arith)
            requires
                na <= 0x10000000000000000u128,
                dl <= 0x100000000u128,
        ;
    }
    let prod: u128 = na * dl;
    let q: u128 = (2 * prod + da) / (2 * da);
    proof {
        lemma_div_pos_is_pos(2 * prod + da, 2 * da);
        lemma_div_is_ordered_by_denominator(2 * prod + da, 1, 2 * da);
    }
    let neg: bool = (pt < min) != (max < min);
    let qi: i128 = if neg {
        -(q as i128)
    } else {
        q as i128
    };
    let v: i128 = qi + space as i128;
    proof {
        let numg = (pt as int - min as int) * (length as int - space as int);
        let deng = max as int - min as int;
        assert(abs(numg) == (na as int) * (dl as int)) by (nonlinear_arith)
            requires
                numg == (pt as int - min as int) * (length as int - space as int),
                na == abs(pt as int - min as int),
                dl == length as int - space as int,
                dl >= 0,
        ;
        assert(abs(deng) == da as int);
        if numg == 0 {
            assert(na as int * dl as int == 0) by (nonlinear_arith)
                requires
                    numg == 0,
                    abs(numg) == na as int * dl as int,
            ;
            assert(prod == 0);
            lemma_basic_div(da as int, 2 * (da as int));
            assert(q == 0);
            assert(qi == round_div(numg, deng));
        } else {
            assert(((numg >= 0) != (deng >= 0)) == neg) by (nonlinear_arith)
                requires
                    numg == (pt as int - min as int) * (length as int - space as int),
                    numg != 0,
                    neg == (((pt as int) < (min as int)) != ((max as int) < (min as int))),
                    deng == max as int - min as int,
                    deng != 0,
                    length as int - space as int >= 0,
            ;
            assert(qi == round_div(numg, deng));
        }
        assert(v == round_div(numg, deng) + space);
    }
    let lo: i128 = -(PIXEL_CLAMP as i128);
    let hi: i128 = PIXEL_CLAMP as i128;
    let r: i64 = if v > hi {
        PIXEL_CLAMP
    } else if v < lo {
        -PIXEL_CLAMP
    } else {
        v as i64
    };
    proof {
        let numg = (pt as int - min as int) * (length as int - space as int);
        let deng = max as int - min as int;
        if pt == min {
            assert(numg == 0) by (nonlinear_arith)
                requires
                    numg == (pt as int - min as int) * (length as int - space as int),
                    pt == min,
            ;
        }
        if pt == max {
            let width = length as int - space as int;
            assert(abs(numg) == abs(deng) * width) by (nonlinear_arith)
                requires
                    numg == (pt as int - min as int) * (length as int - space as int),
                    pt == max,
                    deng == max as int - min as int,
                    width == length as int - space as int,
                    width >= 0,
            ;
            assert(2 * (abs(numg) as int) + abs(deng) as int == (2 * (abs(deng) as int)) * width
                + abs(deng) as int) by (nonlinear_arith)
                requires
                    abs(numg) == abs(deng) * width,
            ;
            lemma_div_multiples_vanish_fancy(width, abs(deng) as int, 2 * (abs(deng) as int));
            assert((2 * (abs(numg) as int) + abs(deng) as int) / (2 * (abs(deng) as int))
                == width);
            assert(round_div(numg, deng) == width);
        }
    }
    r
}

/// Law: a non-degenerate axis maps monotonically, and a point inside the
/// axis range lands inside the pixel band `[space, length]` (so it is never
/// clamped).
pub proof fn lemma_map_pixel_monotone(
    a: int,
    b: int,
    min: int,
    max: int,
    length: int,
    space: int,
)
    requires
        min < max,
        min <= a <= b <= max,
        0 <= space <= length <= u32::MAX as int,
    ensures
        map_pixel(a, min, max, length, space) <= map_pixel(b, min, max, length, space),
        space <= map_pixel(a, min, max, length, space) <= length,
{
    let dl = length - space;
    let den = max - min;
    let na = (a - min) * dl;
    let nb = (b - min) * dl;
    let nm = (max - min) * dl;
    lemma_mul_inequality(0, a - min, dl);
    lemma_mul_inequality(a - min, b - min, dl);
    lemma_mul_inequality(b - min, max - min, dl);
    assert(0 * dl == 0) by (nonlinear_arith);
    assert(abs(na) == na && abs(nb) == nb && abs(den) == den);
    let qa = (2 * na + den) / (2 * den);
    let qb = (2 * nb + den) / (2 * den);
    lemma_div_is_ordered(2 * na + den, 2 * nb + den, 2 * den);
    lemma_div_is_ordered(2 * nb + den, 2 * nm + den, 2 * den);
    lemma_div_pos_is_pos(2 * na + den, 2 * den);
    assert(2 * nm + den == (2 * den) * dl + den) by (nonlinear_arith)
        requires
            nm == den * dl,
    ;
    lemma_div_multiples_vanish_fancy(dl, den, 2 * den);
    assert((2 * nm + den) / (2 * den) == dl);
    assert(round_div(na, den) == qa);
    assert(round_div(nb, den) == qb);
    assert(0 <= qa <= qb <= dl);
    assert(map_pixel(a, min, max, length, space) == qa + space);
    assert(map_pixel(b, min, max, length, space) == qb + space);
}

} // verus!

//! RGB to HSV conversion in fixed-point arithmetic.
//!
//! Hue is measured in thousandths of a degree, in `[0, 360_000)`; saturation
//! and value are measured in thousandths, in `[0, 1000]`.

use vstd::prelude::*;

verus! {

pub open spec fn max3(a: int, b: int, c: int) -> int {
    if a >= b && a >= c {
        a
    } else if b >= c {
        b
    } else {
        c
    }
}

pub open spec fn min3(a: int, b: int, c: int) -> int {
    if a <= b && a <= c {
        a
    } else if b <= c {
        b
    } else {
        c
    }
}

/// Fixed-point mirror of the standard RGB-to-HSV conversion: hue is derived
/// from whichever channel is maximal, saturation is `delta / max`, value is
/// `max / 255`.
pub open spec fn spec_rgb_to_hsv(r: u8, g: u8, b: u8) -> (int, int, int) {
    let ri = r as int;
    let gi = g as int;
    let bi = b as int;
    let mx = max3(ri, gi, bi);
    let mn = min3(ri, gi, bi);
    let delta = mx - mn;
    let v = mx * 1000 / 255;
    let s = if mx == 0 {
        0int
    } else {
        delta * 1000 / mx
    };
    let h = if delta == 0 {
        0int
    } else if mx == ri {
        if gi >= bi {
            60000 * (gi - bi) / delta
        } else {
            360000 - 60000 * (bi - gi) / delta
        }
    } else if mx == gi {
        if bi >= ri {
            120000 + 60000 * (bi - ri) / delta
        } else {
            120000 - 60000 * (ri - bi) / delta
        }
    } else {
        if ri >= gi {
            240000 + 60000 * (ri - gi) / delta
        } else {
            240000 - 60000 * (gi - ri) / delta
        }
    };
    (h, s, v)
}

/// Convert an RGB triple to fixed-point HSV.
///
/// For every input the hue lies in `[0, 360_000)` and the saturation and
/// value lie in `[0, 1000]`.
pub fn rgb_to_hsv(r: u8, g: u8, b: u8) -> (hsv: (u32, u32, u32))
    ensures
        (hsv.0 as int, hsv.1 as int, hsv.2 as int) == spec_rgb_to_hsv(r, g, b),
        hsv.0 < 360000,
        hsv.1 <= 1000,
        hsv.2 <= 1000,
{
    let ri: u32 = r as u32;
    let gi: u32 = g as u32;
    let bi: u32 = b as u32;
    let mx: u32 = if ri >= gi && ri >= bi {
        ri
    } else if gi >= bi {
        gi
    } else {
        bi
    };
    let mn: u32 = if ri <= gi && ri <= bi {
        ri
    } else if gi <= bi {
        gi
    } else {
        bi
    };
    let delta: u32 = mx - mn;

    let v: u32 = mx * 1000 / 255;
    assert(v <= 1000) by (nonlinear_arith)
        requires
            v == mx as int * 1000 / 255,
            mx <= 255,
    ;
    let s: u32 = if mx == 0 {
        0
    } else {
        let sv = delta * 1000 / mx;
        assert(sv <= 1000) by (nonlinear_arith)
            requires
                sv == delta as int * 1000 / mx as int,
                0 < mx <= 255,
                delta <= mx,
        ;
        sv
    };

    let h: u32 = if delta == 0 {
        0
    } else if mx == ri {
        if gi >= bi {
            let q = 60000 * (gi - bi) / delta;
            assert(q <= 60000) by (nonlinear_arith)
                requires
                    q == 60000 * (gi as int - bi as int) / delta as int,
                    0 < delta,
                    gi as int - bi as int <= delta as int,
            ;
            q
        } else {
            let q = 60000 * (bi - gi) / delta;
            assert(1 <= q <= 60000) by (nonlinear_arith)
                requires
                    q == 60000 * (bi as int - gi as int) / delta as int,
                    0 < delta <= 255,
                    1 <= bi as int - gi as int <= delta as int,
            ;
            360000 - q
        }
    } else if mx == gi {
        if bi >= ri {
            let q = 60000 * (bi - ri) / delta;
            assert(q <= 60000) by (nonlinear_arith)
                requires
                    q == 60000 * (bi as int - ri as int) / delta as int,
                    0 < delta,
                    bi as int - ri as int <= delta as int,
            ;
            120000 + q
        } else {
            let q = 60000 * (ri - bi) / delta;
            assert(q <= 60000) by (nonlinear_arith)
                requires
                    q == 60000 * (ri as int - bi as int) / delta as int,
                    0 < delta,
                    ri as int - bi as int <= delta as int,
            ;
            120000 - q
        }
    } else {
        if ri >= gi {
            let q = 60000 * (ri - gi) / delta;
            assert(q <= 60000) by (nonlinear_arith)
                requires
                    q == 60000 * (ri as int - gi as int) / delta as int,
                    0 < delta,
                    ri as int - gi as int <= delta as int,
            ;
            240000 + q
        } else {
            let q = 60000 * (gi - ri) / delta;
            assert(q <= 60000) by (nonlinear_arith)
                requires
                    q == 60000 * (gi as int - ri as int) / delta as int,
                    0 < delta,
                    gi as int - ri as int <= delta as int,
            ;
            240000 - q
        }
    };

    (h, s, v)
}

} // verus!

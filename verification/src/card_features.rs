//! Visual feature extraction: border, frame colour and corner-dot
//! classification by zone sampling, plus the perceptual fingerprint.

use vstd::prelude::*;

use crate::codec::{base64_decode, base64_decoded, decode_image, image_of_bytes};
use crate::hsv::{rgb_to_hsv, spec_rgb_to_hsv};
use crate::image_data::{
    col_cnt_step, col_sum_step, count_white_rect, rect_sum, sum_col_step, sum_rect, white_rect,
    ImageView, RgbImage,
};
use crate::phash::{calculate_phash, spec_phash};

verus! {

#[derive(Debug, Clone, Copy, PartialEq, Eq)]
pub enum BorderType {
    Black,
    White,
    Silver,
    Unknown,
}

#[derive(Debug, Clone, Copy, PartialEq, Eq)]
pub enum FrameColor {
    Black,
    Blue,
    Red,
    Green,
    White,
    Gold,
    Land,
    Unknown,
}

#[derive(Debug, Clone, Copy, PartialEq, Eq)]
pub enum FrameStyle {
    OldFrame,
    ModernFrame,
    M15Frame,
    Unknown,
}

/// The feature bundle produced once per recognition attempt.
#[derive(Debug, Clone, Copy, PartialEq, Eq)]
pub struct CardFeatures {
    pub border_type: BorderType,
    pub frame_color: FrameColor,
    pub frame_style: FrameStyle,
    pub has_corner_dots: bool,
    pub is_foil: bool,
    /// Perceptual fingerprint of the whole image.
    pub phash: u64,
}

/// The border classification rule: average the pixels of four strips inset
/// 15% from the image edge and 5% wide (clipped to the image), then call the
/// border White when the average is bright and unsaturated, Black otherwise.
/// A degenerate image with no sampled pixels is Unknown.
pub open spec fn spec_border_type(v: ImageView) -> BorderType {
    let w = v.width as int;
    let h = v.height as int;
    let mx = w * 15 / 100;
    let my = h * 15 / 100;
    let sw = w * 5 / 100;
    let ty1 = if my + sw <= h {
        my + sw
    } else {
        h
    };
    let by1 = h - my;
    let by0 = if by1 >= sw {
        by1 - sw
    } else {
        0
    };
    let n = (w - 2 * mx) * (ty1 - my) + (w - 2 * mx) * (by1 - by0) + sw * (h - 2 * my) + sw * (h
        - 2 * my);
    if n == 0 {
        BorderType::Unknown
    } else {
        let tr = rect_sum(v, mx, w - mx, my, ty1, 0) + rect_sum(v, mx, w - mx, by0, by1, 0)
            + rect_sum(v, mx, mx + sw, my, h - my, 0) + rect_sum(
            v,
            w - mx - sw,
            w - mx,
            my,
            h - my,
            0,
        );
        let tg = rect_sum(v, mx, w - mx, my, ty1, 1) + rect_sum(v, mx, w - mx, by0, by1, 1)
            + rect_sum(v, mx, mx + sw, my, h - my, 1) + rect_sum(
            v,
            w - mx - sw,
            w - mx,
            my,
            h - my,
            1,
        );
        let tb = rect_sum(v, mx, w - mx, my, ty1, 2) + rect_sum(v, mx, w - mx, by0, by1, 2)
            + rect_sum(v, mx, mx + sw, my, h - my, 2) + rect_sum(
            v,
            w - mx - sw,
            w - mx,
            my,
            h - my,
            2,
        );
        let hsv = spec_rgb_to_hsv((tr / n) as u8, (tg / n) as u8, (tb / n) as u8);
        if hsv.1 < 200 && hsv.2 > 600 {
            BorderType::White
        } else {
            BorderType::Black
        }
    }
}

/// The frame-colour rule: average every tenth pixel of the two vertical
/// lines at 5% and 95% of the width, between 15% and 85% of the height,
/// then apply an ordered list of HSV threshold rules, darker and achromatic
/// checks first.
pub open spec fn spec_frame_color(v: ImageView) -> FrameColor {
    let w = v.width as int;
    let h = v.height as int;
    let xl = w * 5 / 100;
    let xr = w * 95 / 100;
    let y0 = h * 15 / 100;
    let y1 = h * 85 / 100;
    let nl = if xl < w {
        col_cnt_step(y0, y1)
    } else {
        0
    };
    let nr = if xr < w {
        col_cnt_step(y0, y1)
    } else {
        0
    };
    let n = nl + nr;
    if n == 0 {
        FrameColor::Unknown
    } else {
        let tr = (if xl < w {
            col_sum_step(v, xl, y0, y1, 0)
        } else {
            0
        }) + (if xr < w {
            col_sum_step(v, xr, y0, y1, 0)
        } else {
            0
        });
        let tg = (if xl < w {
            col_sum_step(v, xl, y0, y1, 1)
        } else {
            0
        }) + (if xr < w {
            col_sum_step(v, xr, y0, y1, 1)
        } else {
            0
        });
        let tb = (if xl < w {
            col_sum_step(v, xl, y0, y1, 2)
        } else {
            0
        }) + (if xr < w {
            col_sum_step(v, xr, y0, y1, 2)
        } else {
            0
        });
        let hsv = spec_rgb_to_hsv((tr / n) as u8, (tg / n) as u8, (tb / n) as u8);
        let hue = hsv.0;
        let s = hsv.1;
        let val = hsv.2;
        if val < 250 {
            FrameColor::Black
        } else if s < 200 && val > 600 {
            FrameColor::White
        } else if 200000 <= hue && hue <= 260000 && s > 250 {
            FrameColor::Blue
        } else if (hue <= 20000 || (345000 <= hue && hue <= 360000)) && s > 250 {
            FrameColor::Red
        } else if 90000 <= hue && hue <= 150000 && s > 250 {
            FrameColor::Green
        } else if 35000 <= hue && hue <= 65000 && s > 350 && val > 400 {
            FrameColor::Gold
        } else if 15000 <= hue && hue <= 45000 && 150 < s && s < 500 && 250 < val && val < 650 {
            FrameColor::Black
        } else if 20000 <= hue && hue <= 50000 && val > 500 {
            FrameColor::Land
        } else {
            FrameColor::Unknown
        }
    }
}

/// The corner-dot rule: count bright unsaturated pixels in a roughly
/// 20-by-20 patch at each bottom corner (inset 5% horizontally); dots are
/// present only when each corner's white pixels exceed 30% of that
/// corner's own patch, so both corners must show dots.
pub open spec fn spec_corner_dots(v: ImageView) -> bool {
    let w = v.width as int;
    let h = v.height as int;
    let bly = if h >= 20 {
        h - 20
    } else {
        0
    };
    let blx = w * 5 / 100;
    let brx = w * 95 / 100;
    let xal = if blx >= 10 {
        blx - 10
    } else {
        0
    };
    let xbl = if blx + 10 <= w {
        blx + 10
    } else {
        w
    };
    let xar = if brx >= 10 {
        brx - 10
    } else {
        0
    };
    let xbr = if brx + 10 <= w {
        brx + 10
    } else {
        w
    };
    let wl = white_rect(v, xal, xbl, bly, h);
    let wr = white_rect(v, xar, xbr, bly, h);
    let area_l = (xbl - xal) * (h - bly);
    let area_r = (xbr - xar) * (h - bly);
    10 * wl > 3 * area_l && 10 * wr > 3 * area_r
}

/// The full feature bundle computed from one decoded image. Frame style and
/// foil detection are reserved extension points and always report
/// `Unknown` and `false`.
pub open spec fn spec_card_features(v: ImageView) -> CardFeatures {
    CardFeatures {
        border_type: spec_border_type(v),
        frame_color: spec_frame_color(v),
        frame_style: FrameStyle::Unknown,
        has_corner_dots: spec_corner_dots(v),
        is_foil: false,
        phash: spec_phash(v),
    }
}

/// The bytes actually handed to the image decoder: input that is valid
/// base64 is decoded first, anything else is treated as raw binary.
pub open spec fn effective_bytes(data: Seq<u8>) -> Seq<u8> {
    match base64_decoded(data) {
        Some(decoded) => decoded,
        None => data,
    }
}

/// The features extracted from raw input bytes, or `None` when the bytes do
/// not decode to an image.
pub open spec fn spec_extracted_features(data: Seq<u8>) -> Option<CardFeatures> {
    match image_of_bytes(effective_bytes(data)) {
        Some(v) => Some(spec_card_features(v)),
        None => None,
    }
}

/// Byte-identical inputs always yield the same feature bundle, and with it
/// the same perceptual fingerprint.
pub proof fn lemma_extraction_deterministic(data1: Seq<u8>, data2: Seq<u8>)
    requires
        data1 == data2,
    ensures
        spec_extracted_features(data1) == spec_extracted_features(data2),
{
}

/// Scale `value` by `p` percent, rounding down.
fn pct_of(value: u32, p: u32) -> (r: u32)
    requires
        p <= 100,
    ensures
        r as int == (value as int) * (p as int) / 100,
        r <= value,
{
    proof {
        assert((value as int) * (p as int) <= 0xFFFFFFFF * 100) by (nonlinear_arith)
            requires
                0 <= value as int <= 0xFFFFFFFF,
                0 <= p as int <= 100,
        ;
        assert((value as int) * (p as int) / 100 <= value as int) by (nonlinear_arith)
            requires
                0 <= value as int,
                0 <= p as int <= 100,
        ;
    }
    let r64 = value as u64 * p as u64 / 100;
    r64 as u32
}

/// Classify the border by sampling four strips inset 15% from the edges.
pub fn detect_border_type(image: &RgbImage) -> (t: BorderType)
    requires
        image@.wf(),
    ensures
        t == spec_border_type(image@),
{
    let w = image.width;
    let h = image.height;
    let ghost wi = w as int;
    let ghost hi = h as int;
    let mx = pct_of(w, 15);
    let my = pct_of(h, 15);
    let sw = pct_of(w, 5);
    proof {
        assert(2 * (wi * 15 / 100) <= wi) by (nonlinear_arith)
            requires
                wi >= 0,
        ;
        assert(2 * (hi * 15 / 100) <= hi) by (nonlinear_arith)
            requires
                hi >= 0,
        ;
        assert(wi * 15 / 100 + wi * 5 / 100 <= wi) by (nonlinear_arith)
            requires
                wi >= 0,
        ;
    }
    let ty1: u32 = if h - my > sw {
        my + sw
    } else {
        h
    };
    let by1: u32 = h - my;
    let by0: u32 = if by1 >= sw {
        by1 - sw
    } else {
        0
    };

    let top = sum_rect(image, mx, w - mx, my, ty1);
    let bottom = sum_rect(image, mx, w - mx, by0, by1);
    let left = sum_rect(image, mx, mx + sw, my, h - my);
    let right = sum_rect(image, w - mx - sw, w - mx, my, h - my);

    proof {
        let p1 = ((w - mx - mx) as int) * ((ty1 - my) as int);
        let p2 = ((w - mx - mx) as int) * ((by1 - by0) as int);
        let p3 = (sw as int) * ((h - my - my) as int);
        assert(0 <= p1 < 0x10000000000000000) by (nonlinear_arith)
            requires
                0 <= ((w - mx - mx) as int) < 0x100000000,
                0 <= ((ty1 - my) as int) < 0x100000000,
                p1 == ((w - mx - mx) as int) * ((ty1 - my) as int),
        ;
        assert(0 <= p2 < 0x10000000000000000) by (nonlinear_arith)
            requires
                0 <= ((w - mx - mx) as int) < 0x100000000,
                0 <= ((by1 - by0) as int) < 0x100000000,
                p2 == ((w - mx - mx) as int) * ((by1 - by0) as int),
        ;
        assert(0 <= p3 < 0x10000000000000000) by (nonlinear_arith)
            requires
                0 <= (sw as int) < 0x100000000,
                0 <= ((h - my - my) as int) < 0x100000000,
                p3 == (sw as int) * ((h - my - my) as int),
        ;
        assert(255 * p1 < 0x100000000000000000000) by (nonlinear_arith)
            requires
                0 <= p1 < 0x10000000000000000,
        ;
        assert(255 * p2 < 0x100000000000000000000) by (nonlinear_arith)
            requires
                0 <= p2 < 0x10000000000000000,
        ;
        assert(255 * p3 < 0x100000000000000000000) by (nonlinear_arith)
            requires
                0 <= p3 < 0x10000000000000000,
        ;
        assert(255 * (((w - mx - mx) as int)) * (((ty1 - my) as int)) == 255 * p1)
            by (nonlinear_arith)
            requires
                p1 == ((w - mx - mx) as int) * ((ty1 - my) as int),
        ;
        assert(255 * (((w - mx - mx) as int)) * (((by1 - by0) as int)) == 255 * p2)
            by (nonlinear_arith)
            requires
                p2 == ((w - mx - mx) as int) * ((by1 - by0) as int),
        ;
        assert(255 * ((sw as int)) * (((h - my - my) as int)) == 255 * p3) by (nonlinear_arith)
            requires
                p3 == (sw as int) * ((h - my - my) as int),
        ;
    }
    let a_top: u128 = (w - mx - mx) as u128 * (ty1 - my) as u128;
    let a_bottom: u128 = (w - mx - mx) as u128 * (by1 - by0) as u128;
    let a_side: u128 = sw as u128 * (h - my - my) as u128;
    let count: u128 = a_top + a_bottom + a_side + a_side;
    if count == 0 {
        return BorderType::Unknown;
    }
    let tr: u128 = top.0 + bottom.0 + left.0 + right.0;
    let tg: u128 = top.1 + bottom.1 + left.1 + right.1;
    let tb: u128 = top.2 + bottom.2 + left.2 + right.2;
    proof {
        assert(tr <= 255 * count && tg <= 255 * count && tb <= 255 * count);
        assert(tr / count <= 255 && tg / count <= 255 && tb / count <= 255) by (nonlinear_arith)
            requires
                tr <= 255 * count,
                tg <= 255 * count,
                tb <= 255 * count,
                count >= 1,
        ;
    }
    let avg_r = (tr / count) as u8;
    let avg_g = (tg / count) as u8;
    let avg_b = (tb / count) as u8;

    let hsv = rgb_to_hsv(avg_r, avg_g, avg_b);
    if hsv.1 < 200 && hsv.2 > 600 {
        BorderType::White
    } else {
        BorderType::Black
    }
}

/// Classify the frame colour from the two vertical frame lines.
pub fn detect_frame_color(image: &RgbImage) -> (c: FrameColor)
    requires
        image@.wf(),
    ensures
        c == spec_frame_color(image@),
{
    let w = image.width;
    let h = image.height;
    let ghost wi = w as int;
    let ghost hi = h as int;
    let xl = pct_of(w, 5);
    let xr = pct_of(w, 95);
    let y0 = pct_of(h, 15);
    let y1 = pct_of(h, 85);

    let mut tr: u64 = 0;
    let mut tg: u64 = 0;
    let mut tb: u64 = 0;
    let mut n: u64 = 0;
    if xl < w {
        let s = sum_col_step(image, xl, y0, y1);
        tr = tr + s.0;
        tg = tg + s.1;
        tb = tb + s.2;
        n = n + s.3;
    }
    if xr < w {
        let s = sum_col_step(image, xr, y0, y1);
        tr = tr + s.0;
        tg = tg + s.1;
        tb = tb + s.2;
        n = n + s.3;
    }
    if n == 0 {
        return FrameColor::Unknown;
    }
    proof {
        assert(tr / n <= 255 && tg / n <= 255 && tb / n <= 255) by (nonlinear_arith)
            requires
                tr <= 255 * n,
                tg <= 255 * n,
                tb <= 255 * n,
                n >= 1,
        ;
    }
    let avg_r = (tr / n) as u8;
    let avg_g = (tg / n) as u8;
    let avg_b = (tb / n) as u8;

    let hsv = rgb_to_hsv(avg_r, avg_g, avg_b);
    let hue = hsv.0;
    let s = hsv.1;
    let val = hsv.2;
    if val < 250 {
        FrameColor::Black
    } else if s < 200 && val > 600 {
        FrameColor::White
    } else if 200000 <= hue && hue <= 260000 && s > 250 {
        FrameColor::Blue
    } else if (hue <= 20000 || (345000 <= hue && hue <= 360000)) && s > 250 {
        FrameColor::Red
    } else if 90000 <= hue && hue <= 150000 && s > 250 {
        FrameColor::Green
    } else if 35000 <= hue && hue <= 65000 && s > 350 && val > 400 {
        FrameColor::Gold
    } else if 15000 <= hue && hue <= 45000 && 150 < s && s < 500 && 250 < val && val < 650 {
        FrameColor::Black
    } else if 20000 <= hue && hue <= 50000 && val > 500 {
        FrameColor::Land
    } else {
        FrameColor::Unknown
    }
}

/// Frame-style detection is a reserved extension point and always reports
/// `Unknown`.
pub fn detect_frame_style(_image: &RgbImage) -> (s: FrameStyle)
    ensures
        s == FrameStyle::Unknown,
{
    FrameStyle::Unknown
}

/// Detect the white dots in the two bottom corners: present only when
/// each corner's sampled patch is more than 30% white.
pub fn detect_corner_dots(image: &RgbImage) -> (d: bool)
    requires
        image@.wf(),
    ensures
        d == spec_corner_dots(image@),
{
    let w = image.width;
    let h = image.height;
    let ghost wi = w as int;
    let bly: u32 = if h >= 20 {
        h - 20
    } else {
        0
    };
    let blx = pct_of(w, 5);
    let brx = pct_of(w, 95);
    proof {
        if wi >= 1 {
            assert(wi * 5 / 100 < wi) by (nonlinear_arith)
                requires
                    wi >= 1,
            ;
            assert(wi * 95 / 100 < wi) by (nonlinear_arith)
                requires
                    wi >= 1,
            ;
        }
    }
    let xal: u32 = if blx >= 10 {
        blx - 10
    } else {
        0
    };
    let xbl: u32 = if w - blx > 10 {
        blx + 10
    } else {
        w
    };
    let xar: u32 = if brx >= 10 {
        brx - 10
    } else {
        0
    };
    let xbr: u32 = if w - brx > 10 {
        brx + 10
    } else {
        w
    };
    let left = count_white_rect(image, xal, xbl, bly, h);
    let right = count_white_rect(image, xar, xbr, bly, h);
    10 * left.0 > 3 * left.1 && 10 * right.0 > 3 * right.1
}

/// Extract all card features from raw image bytes. Bytes that are valid
/// base64 are decoded first, anything else is treated as raw binary; the
/// decoded image is then classified and fingerprinted. Fails exactly when
/// the bytes do not decode to an image.
pub fn extract_card_features(image_data: &[u8]) -> (r: Result<CardFeatures, String>)
    ensures
        match r {
            Ok(f) => spec_extracted_features(image_data@) == Some(f),
            Err(_) => spec_extracted_features(image_data@) is None,
        },
{
    let decoded = match base64_decode(image_data) {
        Some(bytes) => decode_image(bytes.as_slice()),
        None => decode_image(image_data),
    };
    match decoded {
        Ok(image) => Ok(
            CardFeatures {
                border_type: detect_border_type(&image),
                frame_color: detect_frame_color(&image),
                frame_style: detect_frame_style(&image),
                has_corner_dots: detect_corner_dots(&image),
                is_foil: false,
                phash: calculate_phash(&image),
            },
        ),
        Err(e) => Err(e),
    }
}

} // verus!

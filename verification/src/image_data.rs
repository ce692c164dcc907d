//! The decoded-image model: a row-major grid of RGB bytes, with spec-level
//! sums over rectangular zones used by the feature classifiers.

use vstd::prelude::*;

verus! {

/// Mathematical view of a decoded image.
pub ghost struct ImageView {
    pub width: nat,
    pub height: nat,
    pub pixels: Seq<u8>,
}

impl ImageView {
    /// The pixel buffer holds exactly three bytes per pixel.
    pub open spec fn wf(self) -> bool {
        self.pixels.len() == 3 * self.width * self.height
    }

    /// Channel `c` (0 = red, 1 = green, 2 = blue) of the pixel at `(x, y)`.
    pub open spec fn channel(self, x: int, y: int, c: int) -> u8 {
        self.pixels[3 * (y * self.width + x) + c]
    }
}

/// A decoded image held as plain values: dimensions and a row-major buffer
/// of RGB bytes, three per pixel.
#[derive(Debug)]
pub struct RgbImage {
    pub width: u32,
    pub height: u32,
    pub pixels: Vec<u8>,
}

impl View for RgbImage {
    type V = ImageView;

    open spec fn view(&self) -> ImageView {
        ImageView {
            width: self.width as nat,
            height: self.height as nat,
            pixels: self.pixels@,
        }
    }
}

/// Sum of channel `c` over row `y`, columns `[x0, x1)`.
pub open spec fn row_sum(v: ImageView, y: int, x0: int, x1: int, c: int) -> int
    decreases x1 - x0,
{
    if x1 <= x0 {
        0
    } else {
        row_sum(v, y, x0, x1 - 1, c) + v.channel(x1 - 1, y, c)
    }
}

/// Sum of channel `c` over the rectangle `[x0, x1) x [y0, y1)`.
pub open spec fn rect_sum(v: ImageView, x0: int, x1: int, y0: int, y1: int, c: int) -> int
    decreases y1 - y0,
{
    if y1 <= y0 {
        0
    } else {
        rect_sum(v, x0, x1, y0, y1 - 1, c) + row_sum(v, y1 - 1, x0, x1, c)
    }
}

pub proof fn lemma_row_sum_bounds(v: ImageView, y: int, x0: int, x1: int, c: int)
    ensures
        0 <= row_sum(v, y, x0, x1, c),
        row_sum(v, y, x0, x1, c) <= 255 * (if x1 >= x0 { x1 - x0 } else { 0 }),
    decreases x1 - x0,
{
    if x1 > x0 {
        lemma_row_sum_bounds(v, y, x0, x1 - 1, c);
    }
}

pub proof fn lemma_rect_sum_bounds(v: ImageView, x0: int, x1: int, y0: int, y1: int, c: int)
    ensures
        0 <= rect_sum(v, x0, x1, y0, y1, c),
        rect_sum(v, x0, x1, y0, y1, c) <= 255 * (if x1 >= x0 { x1 - x0 } else { 0 }) * (if y1
            >= y0 {
            y1 - y0
        } else {
            0
        }),
    decreases y1 - y0,
{
    if y1 > y0 {
        lemma_rect_sum_bounds(v, x0, x1, y0, y1 - 1, c);
        lemma_row_sum_bounds(v, y1 - 1, x0, x1, c);
        let a = if x1 >= x0 { x1 - x0 } else { 0 };
        let b = y1 - y0;
        assert(255 * a * (b - 1) + 255 * a == 255 * a * b) by (nonlinear_arith);
    }
}

/// Sum of channel `c` over column `x`, rows `y0`, `y0 + 10`, ... below `y1`.
pub open spec fn col_sum_step(v: ImageView, x: int, y: int, y1: int, c: int) -> int
    decreases y1 - y,
{
    if y >= y1 {
        0
    } else {
        v.channel(x, y, c) + col_sum_step(
            v,
            x,
            if y + 10 <= y1 {
                y + 10
            } else {
                y1
            },
            y1,
            c,
        )
    }
}

/// How many rows the stepped column sample visits.
pub open spec fn col_cnt_step(y: int, y1: int) -> int
    decreases y1 - y,
{
    if y >= y1 {
        0
    } else {
        1 + col_cnt_step(
            if y + 10 <= y1 {
                y + 10
            } else {
                y1
            },
            y1,
        )
    }
}

pub proof fn lemma_col_sum_step_bounds(v: ImageView, x: int, y: int, y1: int, c: int)
    ensures
        0 <= col_sum_step(v, x, y, y1, c),
        col_sum_step(v, x, y, y1, c) <= 255 * col_cnt_step(y, y1),
        0 <= col_cnt_step(y, y1),
        10 * col_cnt_step(y, y1) <= (if y1 >= y {
            y1 - y
        } else {
            0
        }) + 10,
    decreases y1 - y,
{
    if y < y1 {
        let y2 = if y + 10 <= y1 {
            y + 10
        } else {
            y1
        };
        lemma_col_sum_step_bounds(v, x, y2, y1, c);
    }
}

/// Whether the pixel at `(x, y)` counts as white for corner-dot detection:
/// low saturation and high value.
pub open spec fn white_at(v: ImageView, x: int, y: int) -> bool {
    let t = crate::hsv::spec_rgb_to_hsv(v.channel(x, y, 0), v.channel(x, y, 1), v.channel(x, y, 2));
    t.1 < 200 && t.2 > 800
}

/// Number of white pixels in row `y`, columns `[x0, x1)`.
pub open spec fn white_row(v: ImageView, y: int, x0: int, x1: int) -> int
    decreases x1 - x0,
{
    if x1 <= x0 {
        0
    } else {
        white_row(v, y, x0, x1 - 1) + if white_at(v, x1 - 1, y) {
            1int
        } else {
            0int
        }
    }
}

/// Number of white pixels in the rectangle `[x0, x1) x [y0, y1)`.
pub open spec fn white_rect(v: ImageView, x0: int, x1: int, y0: int, y1: int) -> int
    decreases y1 - y0,
{
    if y1 <= y0 {
        0
    } else {
        white_rect(v, x0, x1, y0, y1 - 1) + white_row(v, y1 - 1, x0, x1)
    }
}

/// Read one pixel of the image.
pub fn pixel_at(img: &RgbImage, x: u32, y: u32) -> (p: (u8, u8, u8))
    requires
        img@.wf(),
        x < img@.width,
        y < img@.height,
    ensures
        p.0 == img@.channel(x as int, y as int, 0),
        p.1 == img@.channel(x as int, y as int, 1),
        p.2 == img@.channel(x as int, y as int, 2),
{
    let w = img.width as usize;
    let n = img.pixels.len();
    proof {
        broadcast use vstd::std_specs::vec::axiom_spec_len;

        let wi = img@.width as int;
        let hi = img@.height as int;
        let xi = x as int;
        let yi = y as int;
        assert(img.pixels@.len() == n);
        assert(img.pixels@.len() <= usize::MAX);
        assert(yi * wi + xi + 1 <= wi * hi) by (nonlinear_arith)
            requires
                0 <= xi < wi,
                0 <= yi < hi,
        ;
        assert(3 * (yi * wi + xi) + 2 < 3 * (wi * hi)) by (nonlinear_arith)
            requires
                yi * wi + xi + 1 <= wi * hi,
        ;
        assert(3 * wi * hi == 3 * (wi * hi)) by (nonlinear_arith);
        assert(img@.pixels.len() == 3 * wi * hi);
    }
    let idx: usize = 3 * (y as usize * w + x as usize);
    (img.pixels[idx], img.pixels[idx + 1], img.pixels[idx + 2])
}

/// Per-channel sums over the rectangle `[x0, x1) x [y0, y1)`.
pub fn sum_rect(img: &RgbImage, x0: u32, x1: u32, y0: u32, y1: u32) -> (t: (u128, u128, u128))
    requires
        img@.wf(),
        x0 <= x1 <= img@.width,
        y0 <= y1 <= img@.height,
    ensures
        t.0 == rect_sum(img@, x0 as int, x1 as int, y0 as int, y1 as int, 0),
        t.1 == rect_sum(img@, x0 as int, x1 as int, y0 as int, y1 as int, 1),
        t.2 == rect_sum(img@, x0 as int, x1 as int, y0 as int, y1 as int, 2),
        t.0 <= 255 * (((x1 - x0) as int) * ((y1 - y0) as int)),
        t.1 <= 255 * (((x1 - x0) as int) * ((y1 - y0) as int)),
        t.2 <= 255 * (((x1 - x0) as int) * ((y1 - y0) as int)),
{
    let ghost v = img@;
    let mut tr: u128 = 0;
    let mut tg: u128 = 0;
    let mut tb: u128 = 0;
    let mut y: u32 = y0;
    while y < y1
        invariant
            img@.wf(),
            img@ == v,
            x0 <= x1 <= img@.width,
            y0 <= y <= y1 <= img@.height,
            tr == rect_sum(v, x0 as int, x1 as int, y0 as int, y as int, 0),
            tg == rect_sum(v, x0 as int, x1 as int, y0 as int, y as int, 1),
            tb == rect_sum(v, x0 as int, x1 as int, y0 as int, y as int, 2),
        decreases y1 - y,
    {
        let mut x: u32 = x0;
        while x < x1
            invariant
                img@.wf(),
                img@ == v,
                x0 <= x <= x1 <= img@.width,
                y0 <= y < y1 <= img@.height,
                tr == rect_sum(v, x0 as int, x1 as int, y0 as int, y as int, 0) + row_sum(
                    v,
                    y as int,
                    x0 as int,
                    x as int,
                    0,
                ),
                tg == rect_sum(v, x0 as int, x1 as int, y0 as int, y as int, 1) + row_sum(
                    v,
                    y as int,
                    x0 as int,
                    x as int,
                    1,
                ),
                tb == rect_sum(v, x0 as int, x1 as int, y0 as int, y as int, 2) + row_sum(
                    v,
                    y as int,
                    x0 as int,
                    x as int,
                    2,
                ),
            decreases x1 - x,
        {
            proof {
                lemma_rect_sum_bounds(v, x0 as int, x1 as int, y0 as int, y as int, 0);
                lemma_rect_sum_bounds(v, x0 as int, x1 as int, y0 as int, y as int, 1);
                lemma_rect_sum_bounds(v, x0 as int, x1 as int, y0 as int, y as int, 2);
                lemma_row_sum_bounds(v, y as int, x0 as int, x as int, 0);
                lemma_row_sum_bounds(v, y as int, x0 as int, x as int, 1);
                lemma_row_sum_bounds(v, y as int, x0 as int, x as int, 2);
                assert(255 * ((x1 - x0) as int) * ((y - y0) as int) + 255 * ((x - x0) as int)
                    < 0x1000000000000000000000000) by (nonlinear_arith)
                    requires
                        (x1 - x0) as int <= 0x100000000,
                        (y - y0) as int <= 0x100000000,
                        (x - x0) as int <= 0x100000000,
                ;
            }
            let p = pixel_at(img, x, y);
            tr = tr + p.0 as u128;
            tg = tg + p.1 as u128;
            tb = tb + p.2 as u128;
            x = x + 1;
        }
        y = y + 1;
    }
    proof {
        lemma_rect_sum_bounds(img@, x0 as int, x1 as int, y0 as int, y1 as int, 0);
        lemma_rect_sum_bounds(img@, x0 as int, x1 as int, y0 as int, y1 as int, 1);
        lemma_rect_sum_bounds(img@, x0 as int, x1 as int, y0 as int, y1 as int, 2);
        assert(255 * ((x1 - x0) as int) * ((y1 - y0) as int) == 255 * (((x1 - x0) as int) * ((y1
            - y0) as int))) by (nonlinear_arith);
    }
    (tr, tg, tb)
}

/// Per-channel sums and sample count over column `x`, visiting every tenth
/// row of `[y0, y1)`.
pub fn sum_col_step(img: &RgbImage, x: u32, y0: u32, y1: u32) -> (t: (u64, u64, u64, u64))
    requires
        img@.wf(),
        x < img@.width,
        y1 <= img@.height,
    ensures
        t.0 == col_sum_step(img@, x as int, y0 as int, y1 as int, 0),
        t.1 == col_sum_step(img@, x as int, y0 as int, y1 as int, 1),
        t.2 == col_sum_step(img@, x as int, y0 as int, y1 as int, 2),
        t.3 == col_cnt_step(y0 as int, y1 as int),
        t.0 <= 255 * t.3,
        t.1 <= 255 * t.3,
        t.2 <= 255 * t.3,
        t.3 <= 0x20000000,
{
    let ghost v = img@;
    let mut tr: u64 = 0;
    let mut tg: u64 = 0;
    let mut tb: u64 = 0;
    let mut cnt: u64 = 0;
    let mut y: u32 = y0;
    while y < y1
        invariant
            img@.wf(),
            img@ == v,
            x < img@.width,
            y0 <= y,
            y1 <= img@.height,
            y0 <= y1 ==> y <= y1,
            tr + col_sum_step(v, x as int, y as int, y1 as int, 0) == col_sum_step(
                v,
                x as int,
                y0 as int,
                y1 as int,
                0,
            ),
            tg + col_sum_step(v, x as int, y as int, y1 as int, 1) == col_sum_step(
                v,
                x as int,
                y0 as int,
                y1 as int,
                1,
            ),
            tb + col_sum_step(v, x as int, y as int, y1 as int, 2) == col_sum_step(
                v,
                x as int,
                y0 as int,
                y1 as int,
                2,
            ),
            cnt + col_cnt_step(y as int, y1 as int) == col_cnt_step(y0 as int, y1 as int),
            tr <= 255 * cnt,
            tg <= 255 * cnt,
            tb <= 255 * cnt,
        decreases y1 - y,
    {
        proof {
            lemma_col_sum_step_bounds(v, x as int, y as int, y1 as int, 0);
            lemma_col_sum_step_bounds(v, x as int, y0 as int, y1 as int, 0);
            assert(cnt <= col_cnt_step(y0 as int, y1 as int));
            let total_cnt = col_cnt_step(y0 as int, y1 as int);
            let span = (y1 as int) - (y0 as int);
            assert(10 * total_cnt <= span + 10);
            assert(total_cnt <= 0x20000000) by (nonlinear_arith)
                requires
                    10 * total_cnt <= span + 10,
                    span < 0x100000000,
            ;
            assert(cnt <= 0x20000000);
            assert(tr < 0x2000000000) by (nonlinear_arith)
                requires
                    tr <= 255 * cnt,
                    0 <= cnt <= 0x20000000,
            ;
            assert(tg < 0x2000000000) by (nonlinear_arith)
                requires
                    tg <= 255 * cnt,
                    0 <= cnt <= 0x20000000,
            ;
            assert(tb < 0x2000000000) by (nonlinear_arith)
                requires
                    tb <= 255 * cnt,
                    0 <= cnt <= 0x20000000,
            ;
        }
        let ghost yo = y as int;
        let p = pixel_at(img, x, y);
        tr = tr + p.0 as u64;
        tg = tg + p.1 as u64;
        tb = tb + p.2 as u64;
        cnt = cnt + 1;
        y = if y1 - y > 10 {
            y + 10
        } else {
            y1
        };
        proof {
            assert(y as int == if yo + 10 <= y1 as int {
                yo + 10
            } else {
                y1 as int
            });
            assert(col_sum_step(v, x as int, yo, y1 as int, 0) == v.channel(x as int, yo, 0)
                + col_sum_step(v, x as int, y as int, y1 as int, 0));
            assert(col_sum_step(v, x as int, yo, y1 as int, 1) == v.channel(x as int, yo, 1)
                + col_sum_step(v, x as int, y as int, y1 as int, 1));
            assert(col_sum_step(v, x as int, yo, y1 as int, 2) == v.channel(x as int, yo, 2)
                + col_sum_step(v, x as int, y as int, y1 as int, 2));
            assert(col_cnt_step(yo, y1 as int) == 1 + col_cnt_step(y as int, y1 as int));
        }
    }
    proof {
        lemma_col_sum_step_bounds(img@, x as int, y0 as int, y1 as int, 0);
        if y0 as int <= y1 as int {
            let total_cnt = col_cnt_step(y0 as int, y1 as int);
            let span = (y1 as int) - (y0 as int);
            assert(total_cnt <= 0x20000000) by (nonlinear_arith)
                requires
                    10 * total_cnt <= span + 10,
                    span < 0x100000000,
            ;
        }
    }
    (tr, tg, tb, cnt)
}

/// Count the white pixels and the total pixels in the small rectangle
/// `[x0, x1) x [y0, y1)`.
pub fn count_white_rect(img: &RgbImage, x0: u32, x1: u32, y0: u32, y1: u32) -> (t: (u32, u32))
    requires
        img@.wf(),
        x0 <= x1 <= img@.width,
        y0 <= y1 <= img@.height,
        x1 - x0 <= 20,
        y1 - y0 <= 20,
    ensures
        t.0 == white_rect(img@, x0 as int, x1 as int, y0 as int, y1 as int),
        t.1 == (x1 - x0) * (y1 - y0),
        t.0 <= t.1,
        t.1 <= 400,
{
    let ghost v = img@;
    let mut white: u32 = 0;
    let mut y: u32 = y0;
    while y < y1
        invariant
            img@.wf(),
            img@ == v,
            x0 <= x1 <= img@.width,
            y0 <= y <= y1 <= img@.height,
            x1 - x0 <= 20,
            y1 - y0 <= 20,
            white == white_rect(v, x0 as int, x1 as int, y0 as int, y as int),
            white <= (x1 - x0) * (y - y0),
        decreases y1 - y,
    {
        let mut x: u32 = x0;
        let mut row_white: u32 = 0;
        while x < x1
            invariant
                img@.wf(),
                img@ == v,
                x0 <= x <= x1 <= img@.width,
                y0 <= y < y1 <= img@.height,
                x1 - x0 <= 20,
                row_white == white_row(v, y as int, x0 as int, x as int),
                row_white <= x - x0,
            decreases x1 - x,
        {
            let p = pixel_at(img, x, y);
            let hsv = crate::hsv::rgb_to_hsv(p.0, p.1, p.2);
            if hsv.1 < 200 && hsv.2 > 800 {
                row_white = row_white + 1;
            }
            x = x + 1;
        }
        proof {
            assert((x1 - x0) * ((y - y0) as int) + (x1 - x0) == (x1 - x0) * ((y + 1 - y0) as int))
                by (nonlinear_arith);
            assert(white + row_white <= 400) by (nonlinear_arith)
                requires
                    white <= (x1 - x0) * ((y - y0) as int),
                    row_white <= x1 - x0,
                    0 <= (x1 - x0) <= 20,
                    0 <= (y - y0) <= 19,
            ;
        }
        white = white + row_white;
        y = y + 1;
    }
    proof {
        assert((x1 - x0) * ((y1 - y0) as int) <= 400) by (nonlinear_arith)
            requires
                0 <= (x1 - x0) <= 20,
                0 <= (y1 - y0) <= 20,
        ;
    }
    (white, (x1 - x0) * (y1 - y0))
}

} // verus!

//! RGBA bitmaps and the scans that read their alpha channel.
use vstd::prelude::*;

verus! {

/// Alpha values at or below this count as background.
pub const ALPHA_THRESHOLD: u8 = 10;

/// A `width` x `height` grid of 8-bit RGBA pixels, stored row by row.
pub struct Bitmap {
    pub width: u32,
    pub height: u32,
    pub data: Vec<u8>,
}

/// Offset of channel `c` of pixel `(x, y)` in a row-major RGBA buffer of width `w`.
pub open spec fn channel_offset(w: int, x: int, y: int, c: int) -> int {
    4 * (y * w + x) + c
}

pub proof fn lemma_offset_in_bounds(w: int, h: int, x: int, y: int, c: int)
    requires
        0 <= x < w,
        0 <= y < h,
        0 <= c < 4,
    ensures
        0 <= channel_offset(w, x, y, c) < 4 * (w * h),
{
    assert(0 <= y * w + x < w * h) by (nonlinear_arith)
        requires
            0 <= x < w,
            0 <= y < h,
    ;
}

impl Bitmap {
    /// The buffer holds exactly four bytes per pixel.
    pub open spec fn wf(&self) -> bool {
        self.data@.len() == 4 * (self.width as int * self.height as int)
    }

    pub open spec fn in_bounds(&self, x: int, y: int) -> bool {
        0 <= x < self.width && 0 <= y < self.height
    }

    pub open spec fn channel(&self, x: int, y: int, c: int) -> u8 {
        self.data@[channel_offset(self.width as int, x, y, c)]
    }

    pub open spec fn alpha(&self, x: int, y: int) -> u8 {
        self.channel(x, y, 3)
    }

    /// Pixel `(x, y)` lies in the bitmap and its alpha exceeds `threshold`.
    pub open spec fn is_foreground(&self, x: int, y: int, threshold: u8) -> bool {
        self.in_bounds(x, y) && self.alpha(x, y) > threshold
    }

    pub open spec fn has_foreground(&self, threshold: u8) -> bool {
        exists|x: int, y: int| #[trigger] self.is_foreground(x, y, threshold)
    }

    /// `(min_x, min_y, max_x, max_y)` is the smallest inclusive rectangle that
    /// holds every foreground pixel: each edge touches one of them.
    pub open spec fn is_alpha_bounds(&self, threshold: u8, b: (u32, u32, u32, u32)) -> bool {
        let (min_x, min_y, max_x, max_y) = b;
        &&& min_x <= max_x
        &&& min_y <= max_y
        &&& forall|x: int, y: int| #[trigger]
            self.is_foreground(x, y, threshold) ==> min_x <= x <= max_x && min_y <= y <= max_y
        &&& exists|y: int| #[trigger] self.is_foreground(min_x as int, y, threshold)
        &&& exists|y: int| #[trigger] self.is_foreground(max_x as int, y, threshold)
        &&& exists|x: int| #[trigger] self.is_foreground(x, min_y as int, threshold)
        &&& exists|x: int| #[trigger] self.is_foreground(x, max_y as int, threshold)
    }
}

/// The bounding box of the pixels whose alpha exceeds `threshold`, or `None`
/// when there is no such pixel.
pub fn find_alpha_bounds_with(image: &Bitmap, threshold: u8) -> (r: Option<(u32, u32, u32, u32)>)
    requires
        image.wf(),
    ensures
        r is None <==> !image.has_foreground(threshold),
        r matches Some(b) ==> image.is_alpha_bounds(threshold, b),
{
    let w = image.width;
    let h = image.height;
    let mut found = false;
    let mut min_x: u32 = 0;
    let mut min_y: u32 = 0;
    let mut max_x: u32 = 0;
    let mut max_y: u32 = 0;
    // rows of the pixels that touch the left and right edges, columns of
    // those that touch the top and bottom edges
    let ghost mut wit_min_x: int = 0;
    let ghost mut wit_max_x: int = 0;
    let ghost mut wit_min_y: int = 0;
    let ghost mut wit_max_y: int = 0;
    let len = image.data.len();
    let mut i: usize = 0;
    let mut y: u32 = 0;
    while y < h
        invariant
            image.wf(),
            len == image.data@.len(),
            w == image.width,
            h == image.height,
            y <= h,
            i == 4 * (y as int * w as int),
            found <==> exists|px: int, py: int|
                #[trigger] image.is_foreground(px, py, threshold) && py < y,
            found ==> {
                &&& min_x <= max_x
                &&& min_y <= max_y
                &&& forall|px: int, py: int| #[trigger]
                    image.is_foreground(px, py, threshold) && py < y ==> min_x <= px <= max_x
                        && min_y <= py <= max_y
                &&& image.is_foreground(min_x as int, wit_min_x, threshold)
                &&& image.is_foreground(max_x as int, wit_max_x, threshold)
                &&& image.is_foreground(wit_min_y, min_y as int, threshold)
                &&& image.is_foreground(wit_max_y, max_y as int, threshold)
            },
        decreases h - y,
    {
        let mut x: u32 = 0;
        while x < w
            invariant
                image.wf(),
                len == image.data@.len(),
                w == image.width,
                h == image.height,
                y < h,
                x <= w,
                i == 4 * (y as int * w as int + x as int),
                found <==> exists|px: int, py: int|
                    #[trigger] image.is_foreground(px, py, threshold) && (py < y || (py == y
                        && px < x)),
                found ==> {
                    &&& min_x <= max_x
                    &&& min_y <= max_y
                    &&& forall|px: int, py: int| #[trigger]
                        image.is_foreground(px, py, threshold) && (py < y || (py == y && px < x))
                            ==> min_x <= px <= max_x && min_y <= py <= max_y
                    &&& image.is_foreground(min_x as int, wit_min_x, threshold)
                    &&& image.is_foreground(max_x as int, wit_max_x, threshold)
                    &&& image.is_foreground(wit_min_y, min_y as int, threshold)
                    &&& image.is_foreground(wit_max_y, max_y as int, threshold)
                },
            decreases w - x,
        {
            proof {
                lemma_offset_in_bounds(w as int, h as int, x as int, y as int, 3);
            }
            let a = image.data[i + 3];
            if a > threshold {
                if !found {
                    found = true;
                    min_x = x;
                    max_x = x;
                    min_y = y;
                    max_y = y;
                    proof {
                        wit_min_x = y as int;
                        wit_max_x = y as int;
                        wit_min_y = x as int;
                        wit_max_y = x as int;
                    }
                } else {
                    if x < min_x {
                        min_x = x;
                        proof {
                            wit_min_x = y as int;
                        }
                    }
                    if x > max_x {
                        max_x = x;
                        proof {
                            wit_max_x = y as int;
                        }
                    }
                    if y > max_y {
                        max_y = y;
                        proof {
                            wit_max_y = x as int;
                        }
                    }
                }
                assert(image.is_foreground(x as int, y as int, threshold));
            }
            i = i + 4;
            x = x + 1;
        }
        assert((y as int + 1) * w as int == y as int * w as int + w as int) by (nonlinear_arith);
        y = y + 1;
    }
    if found {
        assert forall|px: int, py: int| #[trigger]
            image.is_foreground(px, py, threshold) implies min_x <= px <= max_x && min_y <= py
            <= max_y by {
            assert(image.is_foreground(px, py, threshold) && py < y);
        }
        assert(image.is_alpha_bounds(threshold, (min_x, min_y, max_x, max_y)));
        Some((min_x, min_y, max_x, max_y))
    } else {
        assert forall|px: int, py: int| !#[trigger] image.is_foreground(px, py, threshold) by {
            if image.is_foreground(px, py, threshold) {
                assert(image.is_foreground(px, py, threshold) && py < y);
            }
        }
        None
    }
}

/// The bounding box of the pixels whose alpha exceeds [`ALPHA_THRESHOLD`].
pub fn find_alpha_bounds(image: &Bitmap) -> (r: Option<(u32, u32, u32, u32)>)
    requires
        image.wf(),
    ensures
        r is None <==> !image.has_foreground(ALPHA_THRESHOLD),
        r matches Some(b) ==> image.is_alpha_bounds(ALPHA_THRESHOLD, b),
{
    find_alpha_bounds_with(image, ALPHA_THRESHOLD)
}

/// Rows before `y` are ahead of row `y` in a row-major buffer.
proof fn lemma_row_order(w: int, x1: int, y1: int, x2: int, y2: int)
    requires
        0 <= x1 < w,
        0 <= x2 < w,
        0 <= y1 < y2,
    ensures
        y1 * w + x1 < y2 * w + x2,
{
    assert(y1 * w + w <= y2 * w) by (nonlinear_arith)
        requires
            y1 < y2,
            0 <= w,
    ;
}

impl Bitmap {
    /// `self` is the `width` x `height` window of `image` whose top-left corner
    /// is `(left, top)`.
    pub open spec fn is_window_of(&self, image: &Bitmap, left: int, top: int) -> bool {
        forall|x: int, y: int, c: int|
            self.in_bounds(x, y) && 0 <= c < 4 ==> #[trigger] self.channel(x, y, c)
                == image.channel(left + x, top + y, c)
    }
}

/// Cuts out the inclusive rectangle `(min_x, min_y, max_x, max_y)`: the result
/// is `max_x - min_x + 1` pixels wide and `max_y - min_y + 1` pixels high.
pub fn crop(image: &Bitmap, bounds: (u32, u32, u32, u32)) -> (r: Bitmap)
    requires
        image.wf(),
        bounds.0 <= bounds.2 < image.width,
        bounds.1 <= bounds.3 < image.height,
    ensures
        r.wf(),
        r.width == bounds.2 - bounds.0 + 1,
        r.height == bounds.3 - bounds.1 + 1,
        r.is_window_of(image, bounds.0 as int, bounds.1 as int),
{
    let (min_x, min_y, max_x, max_y) = bounds;
    let w = image.width;
    let h = image.height;
    let cw: u32 = max_x - min_x + 1;
    let ch: u32 = max_y - min_y + 1;
    let len = image.data.len();
    let mut data: Vec<u8> = Vec::new();
    let mut yy: u32 = 0;
    while yy < ch
        invariant
            image.wf(),
            len == image.data@.len(),
            w == image.width,
            h == image.height,
            min_x + cw <= w,
            min_y + ch <= h,
            cw >= 1,
            yy <= ch,
            data@.len() == 4 * (yy as int * cw as int),
            forall|x: int, y: int, c: int|
                0 <= x < cw && 0 <= y < yy && 0 <= c < 4 ==> #[trigger] data@[channel_offset(
                    cw as int,
                    x,
                    y,
                    c,
                )] == image.channel(min_x + x, min_y + y, c),
        decreases ch - yy,
    {
        proof {
            lemma_offset_in_bounds(w as int, h as int, min_x as int, (min_y + yy) as int, 0);
        }
        let mut j: usize = 4 * ((min_y + yy) as usize * w as usize + min_x as usize);
        let mut xx: u32 = 0;
        while xx < cw
            invariant
                image.wf(),
                len == image.data@.len(),
                w == image.width,
                h == image.height,
                min_x + cw <= w,
                min_y + ch <= h,
                cw >= 1,
                yy < ch,
                xx <= cw,
                j == channel_offset(w as int, min_x + xx, min_y + yy, 0),
                data@.len() == 4 * (yy as int * cw as int + xx as int),
                forall|x: int, y: int, c: int|
                    0 <= x < cw && 0 <= c < 4 && (0 <= y < yy || (y == yy && x < xx))
                        ==> #[trigger] data@[channel_offset(cw as int, x, y, c)] == image.channel(
                        min_x + x,
                        min_y + y,
                        c,
                    ),
            decreases cw - xx,
        {
            proof {
                lemma_offset_in_bounds(w as int, h as int, min_x + xx, min_y + yy, 3);
            }
            let ghost before = data@;
            data.push(image.data[j]);
            data.push(image.data[j + 1]);
            data.push(image.data[j + 2]);
            data.push(image.data[j + 3]);
            assert forall|x: int, y: int, c: int|
                0 <= x < cw && 0 <= c < 4 && (0 <= y < yy || (y == yy && x < xx + 1))
                    implies #[trigger] data@[channel_offset(cw as int, x, y, c)] == image.channel(
                    min_x + x,
                    min_y + y,
                    c,
                ) by {
                if y == yy && x == xx {
                } else {
                    if y < yy {
                        lemma_row_order(cw as int, x, y, xx as int, yy as int);
                    }
                    assert(data@[channel_offset(cw as int, x, y, c)] == before[channel_offset(
                        cw as int,
                        x,
                        y,
                        c,
                    )]);
                }
            }
            j = j + 4;
            xx = xx + 1;
        }
        assert((yy as int + 1) * cw as int == yy as int * cw as int + cw as int) by (nonlinear_arith);
        yy = yy + 1;
    }
    assert(cw as int * ch as int == ch as int * cw as int) by (nonlinear_arith);
    let r = Bitmap { width: cw, height: ch, data };
    assert forall|x: int, y: int, c: int|
        r.in_bounds(x, y) && 0 <= c < 4 implies #[trigger] r.channel(x, y, c) == image.channel(
        min_x + x,
        min_y + y,
        c,
    ) by {
        assert(data@[channel_offset(cw as int, x, y, c)] == image.channel(min_x + x, min_y + y, c));
    }
    r
}

/// At most one rectangle is the bounding box of a bitmap's foreground, so
/// the result of [`find_alpha_bounds_with`] is determined by its contract.
pub proof fn lemma_alpha_bounds_unique(
    image: &Bitmap,
    threshold: u8,
    b1: (u32, u32, u32, u32),
    b2: (u32, u32, u32, u32),
)
    requires
        image.is_alpha_bounds(threshold, b1),
        image.is_alpha_bounds(threshold, b2),
    ensures
        b1 == b2,
{
    let y_min1 = choose|y: int| #[trigger] image.is_foreground(b1.0 as int, y, threshold);
    let y_min2 = choose|y: int| #[trigger] image.is_foreground(b2.0 as int, y, threshold);
    let y_max1 = choose|y: int| #[trigger] image.is_foreground(b1.2 as int, y, threshold);
    let y_max2 = choose|y: int| #[trigger] image.is_foreground(b2.2 as int, y, threshold);
    let x_min1 = choose|x: int| #[trigger] image.is_foreground(x, b1.1 as int, threshold);
    let x_min2 = choose|x: int| #[trigger] image.is_foreground(x, b2.1 as int, threshold);
    let x_max1 = choose|x: int| #[trigger] image.is_foreground(x, b1.3 as int, threshold);
    let x_max2 = choose|x: int| #[trigger] image.is_foreground(x, b2.3 as int, threshold);
    assert(image.is_foreground(b1.0 as int, y_min1, threshold));
    assert(image.is_foreground(b2.0 as int, y_min2, threshold));
    assert(image.is_foreground(b1.2 as int, y_max1, threshold));
    assert(image.is_foreground(b2.2 as int, y_max2, threshold));
    assert(image.is_foreground(x_min1, b1.1 as int, threshold));
    assert(image.is_foreground(x_min2, b2.1 as int, threshold));
    assert(image.is_foreground(x_max1, b1.3 as int, threshold));
    assert(image.is_foreground(x_max2, b2.3 as int, threshold));
}

/// A bitmap whose every pixel is fully transparent has no bounding box.
pub proof fn lemma_transparent_has_no_bounds(image: &Bitmap)
    requires
        image.wf(),
        forall|x: int, y: int| image.in_bounds(x, y) ==> #[trigger] image.alpha(x, y) == 0,
    ensures
        !image.has_foreground(ALPHA_THRESHOLD),
{
    assert forall|x: int, y: int| !#[trigger] image.is_foreground(x, y, ALPHA_THRESHOLD) by {
        if image.in_bounds(x, y) {
            assert(image.alpha(x, y) == 0);
        }
    }
}

/// When exactly one pixel is above the threshold, the bounding box is that
/// pixel alone, and no other box qualifies.
pub proof fn lemma_single_pixel_bounds(image: &Bitmap, px: u32, py: u32, b: (u32, u32, u32, u32))
    requires
        image.wf(),
        image.is_foreground(px as int, py as int, ALPHA_THRESHOLD),
        forall|x: int, y: int|
            #[trigger] image.is_foreground(x, y, ALPHA_THRESHOLD) ==> x == px && y == py,
    ensures
        image.has_foreground(ALPHA_THRESHOLD),
        image.is_alpha_bounds(ALPHA_THRESHOLD, (px, py, px, py)),
        image.is_alpha_bounds(ALPHA_THRESHOLD, b) ==> b == (px, py, px, py),
{
    assert(image.is_foreground(px as int, py as int, ALPHA_THRESHOLD));
}

} // verus!

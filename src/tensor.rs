//! Preparing model input from a bitmap and writing the model's mask back:
//! the scaling factor, the tensor layout and the alpha channel.
use vstd::prelude::*;
use crate::bitmap::{Bitmap, lemma_offset_in_bounds, channel_offset};

verus! {

/// Channel values are centred on this value before they reach the model;
/// the model reads `(value - PIXEL_MEAN) / PIXEL_SCALE`.
pub const PIXEL_MEAN: i16 = 128;

/// Divisor that the caller applies to each centred value of the tensor.
pub const PIXEL_SCALE: i16 = 256;

/// The model's declared input: batch, channel, height, width, with a batch of one.
#[derive(Clone, Copy, Debug, PartialEq, Eq, Structural)]
pub struct TensorShape {
    pub channels: u32,
    pub height: u32,
    pub width: u32,
}

impl TensorShape {
    pub open spec fn wf(&self) -> bool {
        &&& 1 <= self.channels <= 4
        &&& 1 <= self.height
        &&& 1 <= self.width
    }

    /// Number of pixels in one channel plane.
    pub open spec fn plane(&self) -> int {
        self.height as int * self.width as int
    }
}

/// Checks the model's declared input dimensions `[batch, channels, height, width]`.
pub fn input_shape(dims: &Vec<i64>) -> (r: Option<TensorShape>)
    ensures
        r is Some <==> {
            &&& dims@.len() == 4
            &&& dims@[0] == 1
            &&& 1 <= dims@[1] <= 4
            &&& 1 <= dims@[2] <= u32::MAX
            &&& 1 <= dims@[3] <= u32::MAX
        },
        r matches Some(s) ==> s.wf() && s.channels == dims@[1] && s.height == dims@[2] && s.width
            == dims@[3],
{
    if dims.len() != 4 {
        return None;
    }
    let batch = dims[0];
    let channels = dims[1];
    let height = dims[2];
    let width = dims[3];
    if batch != 1 || channels < 1 || channels > 4 || height < 1 || height > u32::MAX as i64
        || width < 1 || width > u32::MAX as i64 {
        return None;
    }
    Some(TensorShape { channels: channels as u32, height: height as u32, width: width as u32 })
}

/// The exact fraction `num / den` by which an image is scaled back after
/// inference; it never exceeds one.
#[derive(Clone, Copy, Debug, PartialEq, Eq, Structural)]
pub struct ScalingFactor {
    pub num: u32,
    pub den: u32,
}

impl ScalingFactor {
    pub open spec fn wf(&self) -> bool {
        0 < self.den && self.num <= self.den
    }

    /// `self` is `min(1, in_w / img_w, in_h / img_h)`.
    pub open spec fn is_scaling_for(&self, img_w: u32, img_h: u32, in_w: u32, in_h: u32) -> bool {
        &&& self.den > 0
        &&& self.num <= self.den
        &&& self.num as int * img_w as int <= in_w as int * self.den as int
        &&& self.num as int * img_h as int <= in_h as int * self.den as int
        &&& {
            ||| self.num == 1 && self.den == 1
            ||| self.num == in_w && self.den == img_w
            ||| self.num == in_h && self.den == img_h
        }
    }
}

/// The factor `min(1, in_w / img_w, in_h / img_h)` that keeps the aspect ratio
/// and never scales up.
pub fn scaling_factor(img_w: u32, img_h: u32, in_w: u32, in_h: u32) -> (r: ScalingFactor)
    requires
        img_w > 0,
        img_h > 0,
    ensures
        r.wf(),
        r.is_scaling_for(img_w, img_h, in_w, in_h),
{
    let mut best = ScalingFactor { num: 1, den: 1 };
    if in_w < img_w {
        best = ScalingFactor { num: in_w, den: img_w };
    }
    // in_h / img_h < best.num / best.den
    if wide_mul(in_h, best.den) < wide_mul(best.num, img_h) {
        proof {
            if best.num == 1 && best.den == 1 {
                assert(in_h < img_h) by (nonlinear_arith)
                    requires
                        in_h as int * (best.den as int) < best.num as int * img_h as int,
                        best.num == 1,
                        best.den == 1,
                ;
                assert(in_h as int * img_w as int <= in_w as int * img_h as int)
                    by (nonlinear_arith)
                    requires
                        in_h < img_h,
                        img_w <= in_w,
                        0 <= in_h,
                        0 <= img_w,
                ;
            } else {
                assert(in_h < img_h) by (nonlinear_arith)
                    requires
                        in_h as int * (best.den as int) < best.num as int * img_h as int,
                        best.num <= best.den,
                        best.den > 0,
                        0 <= img_h,
                ;
            }
        }
        best = ScalingFactor { num: in_h, den: img_h };
    } else {
        proof {
            if best.num == 1 && best.den == 1 {
                assert(img_w as int <= in_w as int);
            }
        }
    }
    best
}

/// `a * b` without overflow.
fn wide_mul(a: u32, b: u32) -> (r: u64)
    ensures
        r == a as int * b as int,
{
    proof {
        assert(a as int * b as int <= u32::MAX as int * u32::MAX as int) by (nonlinear_arith)
            requires
                a <= u32::MAX,
                b <= u32::MAX,
        ;
    }
    (a as u64) * (b as u64)
}

/// `round(size * factor)`, halves rounded up.
pub open spec fn scaled_size_spec(size: int, f: ScalingFactor) -> int {
    (2 * (size * f.num) + f.den) / (2 * f.den as int)
}

/// A factor of one keeps every size.
pub proof fn lemma_unit_scale_keeps_size(size: int, f: ScalingFactor)
    requires
        f.wf(),
        f.num == f.den,
        0 <= size,
    ensures
        scaled_size_spec(size, f) == size,
{
    let b = f.den as int;
    assert((2 * (size * b) + b) / (2 * b) == size) by (nonlinear_arith)
        requires
            b > 0,
            0 <= size,
    ;
}

/// The side length of the final bitmap: `round(size * factor)`.
pub fn scaled_size(size: u32, f: ScalingFactor) -> (r: u32)
    requires
        f.wf(),
    ensures
        r == scaled_size_spec(size as int, f),
        r <= size,
        f.num == f.den ==> r == size,
{
    let n: u128 = 2 * (wide_mul(size, f.num) as u128) + (f.den as u128);
    let d: u128 = 2 * (f.den as u128);
    proof {
        let s = size as int;
        let a = f.num as int;
        let b = f.den as int;
        assert(s * a <= s * b) by (nonlinear_arith)
            requires
                a <= b,
                0 <= s,
        ;
        assert((2 * (s * b) + b) / (2 * b) == s) by (nonlinear_arith)
            requires
                b > 0,
                0 <= s,
        ;
        assert((2 * (s * a) + b) / (2 * b) <= (2 * (s * b) + b) / (2 * b)) by (nonlinear_arith)
            requires
                s * a <= s * b,
                b > 0,
        ;
        if a == b {
            assert(s * a == s * b);
        }
    }
    (n / d) as u32
}

/// Pixel `p`'s channel `c` in the row-major buffer of `image`.
pub open spec fn pixel_channel(image: &Bitmap, p: int, c: int) -> u8 {
    image.data@[4 * p + c]
}

/// `t` is `image` laid out channel plane by channel plane, each value centred
/// on [`PIXEL_MEAN`].
pub open spec fn is_layout_of(t: Seq<i16>, image: &Bitmap, shape: TensorShape) -> bool {
    &&& t.len() == shape.channels as int * shape.plane()
    &&& forall|c: int, y: int, x: int|
        0 <= c < shape.channels && image.in_bounds(x, y) ==> #[trigger] t[c * shape.plane() + (y
            * shape.width + x)] == image.channel(x, y, c) as int - PIXEL_MEAN
}

proof fn lemma_plane_order(n: int, c1: int, p1: int, c2: int, p2: int)
    requires
        0 <= p1 < n,
        0 <= p2,
        0 <= c1 < c2,
    ensures
        c1 * n + p1 < c2 * n + p2,
{
    assert(c1 * n + n <= c2 * n) by (nonlinear_arith)
        requires
            c1 < c2,
            0 <= n,
    ;
}

/// Lays out a bitmap of the model's input size as the model's input tensor,
/// in channel, row, column order, with each value centred on [`PIXEL_MEAN`].
pub fn tensor_layout(image: &Bitmap, shape: TensorShape) -> (r: Vec<i16>)
    requires
        image.wf(),
        shape.wf(),
        image.width == shape.width,
        image.height == shape.height,
    ensures
        is_layout_of(r@, image, shape),
{
    let ghost n = shape.plane();
    let len = image.data.len();
    let plane: usize = image.width as usize * image.height as usize;
    assert(plane == n) by (nonlinear_arith)
        requires
            plane == image.width as int * image.height as int,
            n == shape.height as int * shape.width as int,
            image.width == shape.width,
            image.height == shape.height,
    ;
    let mut t: Vec<i16> = Vec::new();
    let mut c: u32 = 0;
    while c < shape.channels
        invariant
            image.wf(),
            shape.wf(),
            len == image.data@.len(),
            len == 4 * plane,
            plane == n,
            c <= shape.channels,
            t@.len() == c * n,
            forall|c2: int, p: int|
                0 <= c2 < c && 0 <= p < n ==> #[trigger] t@[c2 * n + p] == pixel_channel(
                    image,
                    p,
                    c2,
                ) as int - PIXEL_MEAN,
        decreases shape.channels - c,
    {
        let mut p: usize = 0;
        while p < plane
            invariant
                image.wf(),
                shape.wf(),
                len == image.data@.len(),
                len == 4 * plane,
                plane == n,
                c < shape.channels,
                p <= plane,
                t@.len() == c * n + p,
                forall|c2: int, q: int|
                    (0 <= c2 < c && 0 <= q < n) || (c2 == c && 0 <= q < p) ==> #[trigger] t@[c2
                        * n + q] == pixel_channel(image, q, c2) as int - PIXEL_MEAN,
            decreases plane - p,
        {
            let v = image.data[4 * p + c as usize] as i16 - PIXEL_MEAN;
            let ghost before = t@;
            t.push(v);
            assert forall|c2: int, q: int|
                (0 <= c2 < c && 0 <= q < n) || (c2 == c && 0 <= q < p + 1) implies #[trigger] t@[c2
                    * n + q] == pixel_channel(image, q, c2) as int - PIXEL_MEAN by {
                if c2 < c {
                    lemma_plane_order(n, c2, q, c as int, p as int);
                    assert(t@[c2 * n + q] == before[c2 * n + q]);
                } else if q < p {
                    assert(t@[c2 * n + q] == before[c2 * n + q]);
                }
            }
            p = p + 1;
        }
        assert((c as int + 1) * n == c as int * n + n) by (nonlinear_arith);
        c = c + 1;
    }
    assert forall|c2: int, y: int, x: int|
        0 <= c2 < shape.channels && image.in_bounds(x, y) implies #[trigger] t@[c2 * shape.plane()
        + (y * shape.width + x)] == image.channel(x, y, c2) as int - PIXEL_MEAN by {
        lemma_offset_in_bounds(image.width as int, image.height as int, x, y, 0);
        assert(0 <= y * shape.width + x < n);
        assert(t@[c2 * n + (y * shape.width + x)] == pixel_channel(image, y * shape.width + x, c2)
            as int - PIXEL_MEAN);
    }
    t
}

/// `after` is `before` with its alpha channel taken from `mask`, one byte
/// per pixel in row-major order, and its colour channels kept.
pub open spec fn is_masked(before: &Bitmap, after: &Bitmap, mask: Seq<u8>) -> bool {
    &&& after.width == before.width
    &&& after.height == before.height
    &&& after.data@.len() == before.data@.len()
    &&& forall|x: int, y: int|
        #[trigger] after.in_bounds(x, y) ==> after.alpha(x, y) == mask[y * after.width + x]
            && after.channel(x, y, 0) == before.channel(x, y, 0) && after.channel(x, y, 1)
            == before.channel(x, y, 1) && after.channel(x, y, 2) == before.channel(x, y, 2)
}

/// The RGBA buffer `data` with every fourth byte, the alpha of pixel `k / 4`,
/// taken from `mask`.
pub open spec fn masked_data(data: Seq<u8>, mask: Seq<u8>) -> Seq<u8> {
    Seq::new(data.len(), |k: int| if k % 4 == 3 { mask[k / 4] } else { data[k] })
}

/// Writes the model's mask, already quantised to bytes, into the alpha channel.
pub fn apply_mask(image: &mut Bitmap, mask: &Vec<u8>)
    requires
        old(image).wf(),
        mask@.len() == old(image).width as int * old(image).height as int,
    ensures
        final(image).wf(),
        is_masked(old(image), final(image), mask@),
        final(image).data@ == masked_data(old(image).data@, mask@),
{
    let ghost orig = image.data@;
    let plane = mask.len();
    let dl = image.data.len();
    let mut p: usize = 0;
    while p < plane
        invariant
            image.wf(),
            image.width == old(image).width,
            image.height == old(image).height,
            orig == old(image).data@,
            plane == mask@.len(),
            image.data@.len() == 4 * plane,
            dl == image.data@.len(),
            p <= plane,
            forall|q: int, c: int|
                0 <= q < plane && 0 <= c < 4 ==> #[trigger] image.data@[4 * q + c] == if c == 3
                    && q < p {
                    mask@[q]
                } else {
                    orig[4 * q + c]
                },
        decreases plane - p,
    {
        image.data.set(4 * p + 3, mask[p]);
        p = p + 1;
    }
    assert forall|x: int, y: int| #[trigger] image.in_bounds(x, y) implies image.alpha(x, y)
        == mask@[y * image.width + x] && image.channel(x, y, 0) == old(image).channel(x, y, 0)
        && image.channel(x, y, 1) == old(image).channel(x, y, 1) && image.channel(x, y, 2) == old(
        image,
    ).channel(x, y, 2) by {
        lemma_offset_in_bounds(image.width as int, image.height as int, x, y, 0);
        let q = y * image.width + x;
        assert(image.data@[4 * q + 3] == mask@[q]);
        assert(image.data@[4 * q + 0] == orig[4 * q + 0]);
        assert(image.data@[4 * q + 1] == orig[4 * q + 1]);
        assert(image.data@[4 * q + 2] == orig[4 * q + 2]);
    }
    assert forall|k: int| 0 <= k < image.data@.len() implies #[trigger] image.data@[k]
        == masked_data(orig, mask@)[k] by {
        let q = k / 4;
        let c = k % 4;
        assert(k == 4 * q + c);
        assert(image.data@[4 * q + c] == if c == 3 && q < p {
            mask@[q]
        } else {
            orig[4 * q + c]
        });
    }
    assert(image.data@ =~= masked_data(orig, mask@));
}

/// The scaling factor never exceeds one, and is exactly one when the image
/// fits within the model's input in both dimensions.
pub proof fn lemma_scaling_at_most_one(
    img_w: u32,
    img_h: u32,
    in_w: u32,
    in_h: u32,
    f: ScalingFactor,
)
    requires
        img_w > 0,
        img_h > 0,
        f.is_scaling_for(img_w, img_h, in_w, in_h),
    ensures
        f.num <= f.den,
        img_w <= in_w && img_h <= in_h ==> f.num == f.den,
{
}

/// Laying a model-sized bitmap out as a tensor and then writing back a mask
/// that is opaque everywhere keeps the model's input width and height, and
/// leaves every pixel opaque.
pub proof fn lemma_identity_mask_keeps_shape(
    resized: &Bitmap,
    shape: TensorShape,
    t: Seq<i16>,
    mask: Seq<u8>,
    after: &Bitmap,
)
    requires
        resized.wf(),
        shape.wf(),
        resized.width == shape.width,
        resized.height == shape.height,
        is_layout_of(t, resized, shape),
        mask.len() == shape.plane(),
        forall|i: int| 0 <= i < mask.len() ==> #[trigger] mask[i] == 255,
        is_masked(resized, after, mask),
    ensures
        after.wf(),
        after.width == shape.width,
        after.height == shape.height,
        t.len() == shape.channels as int * (after.width as int * after.height as int),
        forall|x: int, y: int| #[trigger] after.in_bounds(x, y) ==> after.alpha(x, y) == 255,
{
    assert forall|x: int, y: int| #[trigger] after.in_bounds(x, y) implies after.alpha(x, y)
        == 255 by {
        lemma_offset_in_bounds(after.width as int, after.height as int, x, y, 0);
        assert(0 <= y * after.width + x < after.width as int * after.height as int);
        assert(mask[y * after.width + x] == 255);
    }
    assert(shape.plane() == after.width as int * after.height as int) by (nonlinear_arith)
        requires
            shape.plane() == shape.height as int * shape.width as int,
            after.width == shape.width,
            after.height == shape.height,
    ;
}

} // verus!

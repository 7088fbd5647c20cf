//! One image's way from uploaded bytes to deliverable bytes, and the joining
//! of every file's outcome into one answer.
use vstd::prelude::*;
use crate::bitmap::{Bitmap, crop, find_alpha_bounds, ALPHA_THRESHOLD};
use crate::codec::{decode_image, decoded_of, encode_png, png_of, resize, resized_of};
use crate::error::AppError;
use crate::tensor::{
    apply_mask, is_layout_of, lemma_scaling_at_most_one, lemma_unit_scale_keeps_size, masked_data,
    scaled_size, scaled_size_spec, scaling_factor, tensor_layout, ScalingFactor, TensorShape,
};

verus! {

/// An image ready for inference.
pub struct Prepared {
    /// Width of the decoded upload.
    pub width: u32,
    /// Height of the decoded upload.
    pub height: u32,
    /// The upload resampled to the model's input size.
    pub resized: Bitmap,
    /// The model input, see [`tensor_layout`].
    pub tensor: Vec<i16>,
    pub factor: ScalingFactor,
    pub shape: TensorShape,
}

impl Prepared {
    pub open spec fn wf(&self) -> bool {
        &&& self.width > 0
        &&& self.height > 0
        &&& self.shape.wf()
        &&& self.resized.wf()
        &&& self.resized.width == self.shape.width
        &&& self.resized.height == self.shape.height
        &&& self.factor.wf()
        &&& self.factor.is_scaling_for(
            self.width,
            self.height,
            self.shape.width,
            self.shape.height,
        )
        &&& is_layout_of(self.tensor@, &self.resized, self.shape)
    }

    /// Width of the deliverable before cropping.
    pub open spec fn out_width(&self) -> int {
        scaled_size_spec(self.width as int, self.factor)
    }

    /// Height of the deliverable before cropping.
    pub open spec fn out_height(&self) -> int {
        scaled_size_spec(self.height as int, self.factor)
    }
}

/// Decodes an upload, resamples it to the model's input size and lays it out
/// as the model's input.
pub fn prepare(bytes: &[u8], shape: TensorShape) -> (r: Result<Prepared, AppError>)
    requires
        shape.wf(),
    ensures
        r is Ok <==> (decoded_of(bytes@) matches Some(d) && d.0 > 0 && d.1 > 0 && d.2.len() == 4
            * (d.0 as int * d.1 as int)),
        r matches Ok(p) ==> {
            &&& p.wf()
            &&& p.shape == shape
            &&& decoded_of(bytes@) matches Some(d) && d.0 == p.width && d.1 == p.height
                && p.resized.data@ == resized_of(d.0, d.1, d.2, shape.width, shape.height)
        },
        r matches Err(e) ==> e == AppError::InvalidFileFormat,
{
    let decoded = decode_image(bytes)?;
    let resized = resize(&decoded, shape.width, shape.height);
    let tensor = tensor_layout(&resized, shape);
    let factor = scaling_factor(decoded.width, decoded.height, shape.width, shape.height);
    Ok(Prepared { width: decoded.width, height: decoded.height, resized, tensor, factor, shape })
}

/// `full` is the deliverable before cropping: the masked model-size bitmap
/// resampled to the upload's size times the scaling factor.
pub open spec fn is_composite(p: &Prepared, mask: Seq<u8>, full: &Bitmap) -> bool {
    &&& full.wf()
    &&& full.width == p.out_width()
    &&& full.height == p.out_height()
    &&& full.data@ == resized_of(
        p.shape.width,
        p.shape.height,
        masked_data(p.resized.data@, mask),
        full.width,
        full.height,
    )
}

/// Merges the model's mask, one byte per model-input pixel, into the prepared
/// image and resamples the result back to the upload's scaled size.
pub fn composite(p: Prepared, mask: &Vec<u8>) -> (r: Result<Bitmap, AppError>)
    requires
        p.wf(),
    ensures
        r is Ok <==> mask@.len() == p.shape.plane() && p.out_width() > 0 && p.out_height() > 0,
        r matches Ok(full) ==> is_composite(&p, mask@, &full),
        r matches Err(e) ==> e is ImageProcessing,
{
    let ghost before = p.resized.data@;
    proof {
        assert(p.shape.width as int * p.shape.height as int <= u32::MAX as int * u32::MAX as int)
            by (nonlinear_arith)
            requires
                p.shape.width <= u32::MAX,
                p.shape.height <= u32::MAX,
        ;
        assert(p.shape.plane() == p.shape.width as int * p.shape.height as int)
            by (nonlinear_arith)
            requires
                p.shape.plane() == p.shape.height as int * p.shape.width as int,
        ;
    }
    let plane: u64 = p.shape.width as u64 * p.shape.height as u64;
    if mask.len() as u64 != plane {
        return Err(AppError::ImageProcessing(String::from_str("mask size does not match the model input")));
    }
    let out_w = scaled_size(p.width, p.factor);
    let out_h = scaled_size(p.height, p.factor);
    if out_w == 0 || out_h == 0 {
        return Err(AppError::ImageProcessing(String::from_str("image too small to scale")));
    }
    let mut resized = p.resized;
    apply_mask(&mut resized, mask);
    let full = resize(&resized, out_w, out_h);
    assert(resized.data@ == masked_data(before, mask@));
    Ok(full)
}

/// Writing back a mask that is opaque everywhere yields a composite of
/// `round(width * s)` x `round(height * s)` pixels, `s` being the scaling
/// factor; an upload that fits within the model input keeps its own size.
pub proof fn lemma_identity_mask_output_size(p: &Prepared, mask: Seq<u8>, full: &Bitmap)
    requires
        p.wf(),
        mask.len() == p.shape.plane(),
        forall|i: int| 0 <= i < mask.len() ==> #[trigger] mask[i] == 255,
        is_composite(p, mask, full),
    ensures
        full.width == scaled_size_spec(p.width as int, p.factor),
        full.height == scaled_size_spec(p.height as int, p.factor),
        p.width <= p.shape.width && p.height <= p.shape.height ==> full.width == p.width
            && full.height == p.height,
{
    if p.width <= p.shape.width && p.height <= p.shape.height {
        lemma_scaling_at_most_one(p.width, p.height, p.shape.width, p.shape.height, p.factor);
        lemma_unit_scale_keeps_size(p.width as int, p.factor);
        lemma_unit_scale_keeps_size(p.height as int, p.factor);
    }
}

/// `out` is `full` trimmed to the bounding box of its foreground when `trim`
/// asks for it and there is a foreground, and `full` unchanged otherwise.
pub open spec fn is_trimmed(full: &Bitmap, trim: bool, out: &Bitmap) -> bool {
    if trim && full.has_foreground(ALPHA_THRESHOLD) {
        exists|b: (u32, u32, u32, u32)|
            #[trigger] full.is_alpha_bounds(ALPHA_THRESHOLD, b) && out.width == b.2 - b.0 + 1
                && out.height == b.3 - b.1 + 1 && out.is_window_of(full, b.0 as int, b.1 as int)
    } else {
        out.width == full.width && out.height == full.height && out.data@ == full.data@
    }
}

/// Trims a bitmap to the inclusive bounding box of its pixels whose alpha
/// exceeds [`ALPHA_THRESHOLD`], when `trim` is set; a bitmap without such
/// pixels is kept whole.
pub fn trim_to_content(full: Bitmap, trim: bool) -> (r: Bitmap)
    requires
        full.wf(),
    ensures
        r.wf(),
        is_trimmed(&full, trim, &r),
        full.width > 0 && full.height > 0 ==> r.width > 0 && r.height > 0,
{
    if !trim {
        return full;
    }
    match find_alpha_bounds(&full) {
        Some(b) => {
            proof {
                let (x0, y0, x1, y1) = b;
                assert(full.is_foreground(x1 as int, choose|y: int| #[trigger] full.is_foreground(x1 as int, y, ALPHA_THRESHOLD), ALPHA_THRESHOLD));
                assert(full.is_foreground(choose|x: int| #[trigger] full.is_foreground(x, y1 as int, ALPHA_THRESHOLD), y1 as int, ALPHA_THRESHOLD));
            }
            let out = crop(&full, b);
            assert(full.is_alpha_bounds(ALPHA_THRESHOLD, b));
            out
        },
        None => full,
    }
}

/// `v` is the PNG of the deliverable for `p` and `mask`.
pub open spec fn is_deliverable(p: &Prepared, mask: Seq<u8>, trim: bool, v: Seq<u8>) -> bool {
    exists|full: Bitmap, out: Bitmap|
        #[trigger] is_composite(p, mask, &full) && #[trigger] is_trimmed(&full, trim, &out)
            && out.wf() && v == png_of(out.width, out.height, out.data@)
}

/// The encoded deliverable of one upload.
pub struct ProcessedImage {
    pub data: Vec<u8>,
}

/// Composites, optionally trims, and encodes the deliverable as PNG.
pub fn render(p: Prepared, mask: &Vec<u8>, trim: bool) -> (r: Result<ProcessedImage, AppError>)
    requires
        p.wf(),
    ensures
        r is Ok <==> mask@.len() == p.shape.plane() && p.out_width() > 0 && p.out_height() > 0,
        r matches Ok(img) ==> is_deliverable(&p, mask@, trim, img.data@),
        r matches Err(e) ==> e is ImageProcessing,
{
    let ghost p0 = p;
    let full = composite(p, mask)?;
    let ghost full0 = full;
    let out = trim_to_content(full, trim);
    let v = encode_png(&out)?;
    assert(is_composite(&p0, mask@, &full0) && is_trimmed(&full0, trim, &out));
    Ok(ProcessedImage { data: v })
}

/// Refuses a request without files.
pub fn check_batch(n_files: usize) -> (r: Result<(), AppError>)
    ensures
        r is Err <==> n_files == 0,
        r matches Err(e) ==> e == AppError::InvalidFileFormat,
{
    if n_files == 0 {
        Err(AppError::InvalidFileFormat)
    } else {
        Ok(())
    }
}

/// Classifies the outcome of reading an uploaded file: a read failure is an
/// internal error, an empty file an invalid one.
pub fn read_outcome(read: Result<Vec<u8>, String>) -> (r: Result<Vec<u8>, AppError>)
    ensures
        read matches Err(msg) ==> r == Err::<Vec<u8>, AppError>(AppError::InternalError(msg)),
        read is Ok && read->Ok_0@.len() == 0 ==> r == Err::<Vec<u8>, AppError>(
            AppError::InvalidFileFormat,
        ),
        read is Ok && read->Ok_0@.len() > 0 ==> r is Ok && r->Ok_0@ == read->Ok_0@,
{
    match read {
        Err(msg) => Err(AppError::InternalError(msg)),
        Ok(v) => {
            if v.len() == 0 {
                Err(AppError::InvalidFileFormat)
            } else {
                Ok(v)
            }
        },
    }
}

/// Classifies the outcome of running the model.
pub fn inference_outcome(run: Result<Vec<u8>, String>) -> (r: Result<Vec<u8>, AppError>)
    ensures
        run matches Err(msg) ==> r == Err::<Vec<u8>, AppError>(AppError::ImageProcessing(msg)),
        run is Ok ==> r is Ok && r->Ok_0@ == run->Ok_0@,
{
    match run {
        Err(msg) => Err(AppError::ImageProcessing(msg)),
        Ok(m) => Ok(m),
    }
}

/// Classifies the outcome of an upload: any backend failure is an upload error.
pub fn upload_outcome(sent: Result<String, String>) -> (r: Result<String, AppError>)
    ensures
        sent matches Err(msg) ==> r == Err::<String, AppError>(AppError::StorageUpload(msg)),
        sent is Ok ==> r is Ok && r->Ok_0@ == sent->Ok_0@,
{
    match sent {
        Err(msg) => Err(AppError::StorageUpload(msg)),
        Ok(url) => Ok(url),
    }
}

/// Index of the first failed outcome among the first `n`, or `n`.
pub open spec fn first_failure(outcomes: Seq<Result<String, AppError>>, n: int) -> int
    decreases n,
{
    if n <= 0 {
        0
    } else if first_failure(outcomes, n - 1) < n - 1 {
        first_failure(outcomes, n - 1)
    } else if outcomes[n - 1] is Err {
        n - 1
    } else {
        n
    }
}

proof fn lemma_first_failure(outcomes: Seq<Result<String, AppError>>, n: int)
    requires
        0 <= n <= outcomes.len(),
    ensures
        0 <= first_failure(outcomes, n) <= n,
        forall|i: int| 0 <= i < first_failure(outcomes, n) ==> #[trigger] outcomes[i] is Ok,
        first_failure(outcomes, n) < n ==> outcomes[first_failure(outcomes, n)] is Err,
    decreases n,
{
    if n > 0 {
        lemma_first_failure(outcomes, n - 1);
    }
}

/// Joins every file's outcome: the list of URLs, in input order, when every
/// file succeeded; otherwise the error of the first file that failed.
pub fn join_outcomes(outcomes: Vec<Result<String, AppError>>) -> (r: Result<Vec<String>, AppError>)
    ensures
        r is Ok <==> forall|i: int| 0 <= i < outcomes@.len() ==> #[trigger] outcomes@[i] is Ok,
        r matches Ok(urls) ==> urls@.len() == outcomes@.len() && forall|i: int|
            0 <= i < urls@.len() ==> #[trigger] outcomes@[i] == Ok::<String, AppError>(urls@[i]),
        r matches Err(e) ==> {
            let k = first_failure(outcomes@, outcomes@.len() as int);
            &&& 0 <= k < outcomes@.len()
            &&& outcomes@[k] == Err::<String, AppError>(e)
            &&& forall|i: int| 0 <= i < k ==> #[trigger] outcomes@[i] is Ok
        },
{
    let ghost all = outcomes@;
    proof {
        lemma_first_failure(all, all.len() as int);
    }
    let n = outcomes.len();
    let mut urls: Vec<String> = Vec::new();
    let mut i: usize = 0;
    let mut rest = outcomes;
    while i < n
        invariant
            n == all.len(),
            all == outcomes@,
            i <= n,
            rest@ == all.subrange(i as int, n as int),
            urls@.len() == i,
            forall|j: int| 0 <= j < i ==> #[trigger] all[j] == Ok::<String, AppError>(urls@[j]),
        decreases n - i,
    {
        let next = rest.remove(0);
        assert(next == all[i as int]);
        match next {
            Ok(url) => {
                urls.push(url);
            },
            Err(e) => {
                proof {
                    lemma_first_failure(all, n as int);
                    let k = first_failure(all, n as int);
                    assert(all[i as int] is Err);
                    assert(0 <= k <= n);
                    if k < i {
                        assert(all[k] == Ok::<String, AppError>(urls@[k]));
                        assert(all[k] is Err);
                    }
                    if k > i {
                        assert(all[i as int] is Ok);
                    }
                    assert(k == i);
                    assert(all[i as int] == Err::<String, AppError>(e));
                    assert(!(all[i as int] is Ok));
                }
                return Err(e);
            },
        }
        i = i + 1;
    }
    Ok(urls)
}

} // verus!

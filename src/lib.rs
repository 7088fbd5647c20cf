//! Background removal for uploaded images: the per-image transformation
//! pipeline (tensor layout, alpha compositing, bounding-box cropping), the
//! storage-key and URL rules of the upload backends, and the fail-fast
//! aggregation of per-file outcomes.
use vstd::prelude::*;

pub mod bitmap;
pub mod tensor;
pub mod error;
pub mod codec;
pub mod storage;
pub mod transform_api;
pub mod pipeline;
pub mod config;

verus! {

} // verus!

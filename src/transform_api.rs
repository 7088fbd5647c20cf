//! The transform-API backend: uploads travel as self-describing data URLs.
use vstd::prelude::*;
use crate::storage::{is_uuid_text, new_object_id, same_text};

verus! {

#[verifier::external_type_specification]
#[verifier::external_body]
pub struct ExUpload(cloudinary::upload::Upload);

/// Relies on `cloudinary::upload::Upload::new`, which only stores the API key,
/// cloud name and API secret.
pub assume_specification[ cloudinary::upload::Upload::new ](
    api_key: String,
    cloud_name: String,
    api_secret: String,
) -> cloudinary::upload::Upload;

/// The standard, padded base64 text of `bytes`.
pub uninterp spec fn base64_of(bytes: Seq<u8>) -> Seq<char>;

/// Relies on `base64::Engine::encode` with the `STANDARD` engine: padded
/// output, four characters for each started group of three bytes. It panics
/// only when the encoded length overflows `usize`.
#[verifier::external_body]
fn base64_standard(bytes: &[u8]) -> (r: String)
    requires
        bytes@.len() <= usize::MAX / 2,
    ensures
        r@ == base64_of(bytes@),
        r@.len() == 4 * ((bytes@.len() + 2) / 3),
{
    base64::Engine::encode(&base64::engine::general_purpose::STANDARD, bytes)
}

pub open spec fn data_url_spec(format: Seq<char>, bytes: Seq<u8>) -> Seq<char> {
    "data:image/"@ + format + ";base64,"@ + base64_of(bytes)
}

/// `data:image/{format};base64,{bytes in base64}`.
pub fn data_url(format: &str, bytes: &[u8]) -> (r: String)
    requires
        bytes@.len() <= usize::MAX / 2,
    ensures
        r@ == data_url_spec(format@, bytes@),
        r@.len() == 19 + format@.len() + 4 * ((bytes@.len() + 2) / 3),
{
    let encoded = base64_standard(bytes);
    proof {
        reveal_strlit("data:image/");
        reveal_strlit(";base64,");
    }
    String::from_str("data:image/").concat(format).concat(";base64,").concat(encoded.as_str())
}

/// What the transform API is sent for one upload.
pub struct CloudinaryRequest {
    pub data_url: String,
    /// The random identifier the object is stored under.
    pub public_id: String,
    pub folder: String,
}

/// Client of the transform-API backend.
pub struct CloudinaryUploader {
    cloudinary: cloudinary::upload::Upload,
}

impl CloudinaryUploader {
    pub fn new(cloud_name: &str, api_key: &str, api_secret: &str) -> (r: CloudinaryUploader) {
        CloudinaryUploader {
            cloudinary: cloudinary::upload::Upload::new(
                String::from_str(api_key),
                String::from_str(cloud_name),
                String::from_str(api_secret),
            ),
        }
    }

    pub fn client(&self) -> &cloudinary::upload::Upload {
        &self.cloudinary
    }

    /// The request that uploads `image_data` under a fresh random identifier
    /// in `folder`.
    pub fn request(image_data: &[u8], format: &str, folder: &str) -> (r: CloudinaryRequest)
        requires
            image_data@.len() <= usize::MAX / 2,
        ensures
            r.data_url@ == data_url_spec(format@, image_data@),
            is_uuid_text(r.public_id@),
            r.folder@ == folder@,
    {
        CloudinaryRequest {
            data_url: data_url(format, image_data),
            public_id: new_object_id(),
            folder: String::from_str(folder),
        }
    }

    /// Whether the backend's answer to a deletion reports success.
    pub fn deleted(result: &str) -> (r: bool)
        ensures
            r <==> result@ == "ok"@,
    {
        same_text(result, "ok")
    }
}

} // verus!

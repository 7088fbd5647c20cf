//! The request-time error taxonomy.
use vstd::prelude::*;

verus! {

/// What went wrong while handling a request.
#[derive(Debug, PartialEq, Eq)]
pub enum AppError {
    /// Decoding, resizing, compositing or inference failed; holds the diagnostic.
    ImageProcessing(String),
    /// A storage backend failed to upload or delete; holds the diagnostic.
    StorageUpload(String),
    /// No files, an empty file, or bytes that are not a supported image.
    InvalidFileFormat,
    /// Anything else, such as a temporary file that could not be read.
    InternalError(String),
}

pub open spec fn processing_prefix() -> Seq<char> {
    "Failed to process image: "@
}

pub open spec fn upload_prefix() -> Seq<char> {
    "Failed to upload to storage: "@
}

pub open spec fn internal_prefix() -> Seq<char> {
    "Internal server error: "@
}

pub open spec fn invalid_format_text() -> Seq<char> {
    "Invalid file format"@
}

impl AppError {
    /// The message that the client receives.
    pub open spec fn message_spec(&self) -> Seq<char> {
        match self {
            AppError::ImageProcessing(e) => processing_prefix() + e@,
            AppError::StorageUpload(e) => upload_prefix() + e@,
            AppError::InvalidFileFormat => invalid_format_text(),
            AppError::InternalError(e) => internal_prefix() + e@,
        }
    }

    /// A client error for bad input, a server error for everything else.
    pub open spec fn status_spec(&self) -> u16 {
        match self {
            AppError::InvalidFileFormat => 400,
            _ => 500,
        }
    }

    pub fn status_code(&self) -> (r: u16)
        ensures
            r == self.status_spec(),
    {
        match self {
            AppError::InvalidFileFormat => 400,
            _ => 500,
        }
    }

    pub fn is_client_error(&self) -> (r: bool)
        ensures
            r <==> self.status_spec() == 400,
    {
        match self {
            AppError::InvalidFileFormat => true,
            _ => false,
        }
    }

    pub fn message(&self) -> (r: String)
        ensures
            r@ == self.message_spec(),
    {
        match self {
            AppError::ImageProcessing(e) => String::from_str("Failed to process image: ").concat(
                e.as_str(),
            ),
            AppError::StorageUpload(e) => String::from_str(
                "Failed to upload to storage: ",
            ).concat(e.as_str()),
            AppError::InvalidFileFormat => String::from_str("Invalid file format"),
            AppError::InternalError(e) => String::from_str("Internal server error: ").concat(
                e.as_str(),
            ),
        }
    }
}

} // verus!

//! The errors that reach a caller, and how each is answered.

use vstd::prelude::*;
use vstd::string::*;
use crate::scan::{chars_of, decimal_text, push_decimal};
use crate::text::string_of;

verus! {

/// What can go wrong while an upload is taken in, served or deleted.
#[derive(Clone, Debug, PartialEq, Eq)]
pub enum UploadError {
    /// The upload could not be read.
    Upload(String),
    /// The key-value store failed.
    Db(String),
    /// Stored bytes were not the text they should be.
    ParseString(String),
    /// The request could not be understood.
    ParseReq(String),
    /// The filesystem failed.
    Io(String),
    /// A blocking operation was abandoned.
    Canceled,
    /// The upload held no file.
    NoFiles,
    /// The alias is not known.
    MissingAlias,
    /// The alias points at a file that is gone.
    MissingFile,
    /// The delete token is not the one that was issued.
    InvalidToken,
    /// The media format is not one that is accepted.
    UnsupportedFormat,
    /// The media is wider, higher or larger than allowed.
    Dimensions,
    /// The media has more frames than allowed.
    Frames,
    /// A download was answered with this status.
    Download(u16),
    /// A download broke off.
    Payload(String),
    /// A request could not be sent.
    SendRequest(String),
    /// The request named no file.
    MissingFilename,
    /// A path is not text.
    Path,
    /// The alias is taken.
    DuplicateAlias,
    /// The file to be written exists.
    FileExists,
    /// Stored details could not be read.
    Json(String),
    /// The requested byte range cannot be served.
    Range,
    /// The video converter failed.
    VideoError(String),
    /// The image converter failed.
    MagickError(String),
}

/// The classes of answer.
pub const BAD_REQUEST: u16 = 400;

pub const FORBIDDEN: u16 = 403;

pub const NOT_FOUND: u16 = 404;

pub const RANGE_NOT_SATISFIABLE: u16 = 416;

pub const INTERNAL_SERVER_ERROR: u16 = 500;

impl UploadError {
    /// The status with which the error is answered: a fault of the request
    /// is told apart from a thing that is not there, a refused token, a
    /// range that cannot be served, and a fault of the service itself.
    pub open spec fn status(self) -> u16 {
        match self {
            UploadError::VideoError(_)
            | UploadError::MagickError(_)
            | UploadError::DuplicateAlias
            | UploadError::NoFiles
            | UploadError::Upload(_)
            | UploadError::ParseReq(_) => BAD_REQUEST,
            UploadError::MissingAlias | UploadError::MissingFilename => NOT_FOUND,
            UploadError::InvalidToken => FORBIDDEN,
            UploadError::Range => RANGE_NOT_SATISFIABLE,
            _ => INTERNAL_SERVER_ERROR,
        }
    }

    /// What the error says of itself.
    pub open spec fn message_text(self) -> Seq<char> {
        match self {
            UploadError::Upload(e) => "Couln't upload file, "@ + e@,
            UploadError::Db(e) => "Error in DB, "@ + e@,
            UploadError::ParseString(e) => "Error parsing string, "@ + e@,
            UploadError::ParseReq(e) => "Error parsing request, "@ + e@,
            UploadError::Io(e) => "Error interacting with filesystem, "@ + e@,
            UploadError::Canceled => "Panic in blocking operation"@,
            UploadError::NoFiles => "No files present in upload"@,
            UploadError::MissingAlias => "Requested a file that doesn't exist"@,
            UploadError::MissingFile => "Alias directed to missing file"@,
            UploadError::InvalidToken => "Provided token did not match expected token"@,
            UploadError::UnsupportedFormat => "Unsupported image format"@,
            UploadError::Dimensions => "Provided image is too large"@,
            UploadError::Frames => "Provided image has too many frames"@,
            UploadError::Download(status) => "Unable to download image, bad response "@
                + decimal_text(status as nat),
            UploadError::Payload(e) => "Unable to download image, "@ + e@,
            UploadError::SendRequest(e) => "Unable to send request, "@ + e@,
            UploadError::MissingFilename => "No filename provided in request"@,
            UploadError::Path => "Error converting Path to String"@,
            UploadError::DuplicateAlias => "Tried to save an image with an already-taken name"@,
            UploadError::FileExists => "Tried to create file, but file already exists"@,
            UploadError::Json(e) => e@,
            UploadError::Range => "Range header not satisfiable"@,
            UploadError::VideoError(e) => e@,
            UploadError::MagickError(e) => e@,
        }
    }

    /// What the error says of itself.
    pub fn to_string(&self) -> (r: String)
        ensures
            r@ == self.message_text(),
    {
        match self {
            UploadError::Upload(e) => "Couln't upload file, ".to_owned().concat(e.as_str()),
            UploadError::Db(e) => "Error in DB, ".to_owned().concat(e.as_str()),
            UploadError::ParseString(e) => "Error parsing string, ".to_owned().concat(e.as_str()),
            UploadError::ParseReq(e) => "Error parsing request, ".to_owned().concat(e.as_str()),
            UploadError::Io(e) => "Error interacting with filesystem, ".to_owned().concat(
                e.as_str(),
            ),
            UploadError::Canceled => "Panic in blocking operation".to_owned(),
            UploadError::NoFiles => "No files present in upload".to_owned(),
            UploadError::MissingAlias => "Requested a file that doesn't exist".to_owned(),
            UploadError::MissingFile => "Alias directed to missing file".to_owned(),
            UploadError::InvalidToken => "Provided token did not match expected token".to_owned(),
            UploadError::UnsupportedFormat => "Unsupported image format".to_owned(),
            UploadError::Dimensions => "Provided image is too large".to_owned(),
            UploadError::Frames => "Provided image has too many frames".to_owned(),
            UploadError::Download(status) => {
                let mut text = chars_of("Unable to download image, bad response ");
                push_decimal(&mut text, *status);
                string_of(text.as_slice())
            },
            UploadError::Payload(e) => "Unable to download image, ".to_owned().concat(e.as_str()),
            UploadError::SendRequest(e) => "Unable to send request, ".to_owned().concat(e.as_str()),
            UploadError::MissingFilename => "No filename provided in request".to_owned(),
            UploadError::Path => "Error converting Path to String".to_owned(),
            UploadError::DuplicateAlias => "Tried to save an image with an already-taken name".to_owned(),
            UploadError::FileExists => "Tried to create file, but file already exists".to_owned(),
            UploadError::Json(e) => e.clone(),
            UploadError::Range => "Range header not satisfiable".to_owned(),
            UploadError::VideoError(e) => e.clone(),
            UploadError::MagickError(e) => e.clone(),
        }
    }

    /// The status with which the error is answered.
    pub fn status_code(&self) -> (r: u16)
        ensures
            r == self.status(),
    {
        match self {
            UploadError::VideoError(_)
            | UploadError::MagickError(_)
            | UploadError::DuplicateAlias
            | UploadError::NoFiles
            | UploadError::Upload(_)
            | UploadError::ParseReq(_) => BAD_REQUEST,
            UploadError::MissingAlias | UploadError::MissingFilename => NOT_FOUND,
            UploadError::InvalidToken => FORBIDDEN,
            UploadError::Range => RANGE_NOT_SATISFIABLE,
            _ => INTERNAL_SERVER_ERROR,
        }
    }
}

/// What can go wrong in the file store.
#[derive(Clone, Debug, PartialEq, Eq)]
pub enum FileError {
    /// The filesystem failed.
    Io(String),
    /// The stored cursor of the path generator is malformed.
    PathGenerator,
    /// An identifier is not text.
    IdError,
    /// A path does not lie under the store's root.
    PrefixError,
    /// The file to be written exists.
    FileExists,
}

impl FileError {
    /// What the error says of itself.
    pub open spec fn message_text(self) -> Seq<char> {
        match self {
            FileError::Io(e) => "Failed to read or write file"@,
            FileError::PathGenerator => "Failed to generate path"@,
            FileError::IdError => "Error formatting file store identifier"@,
            FileError::PrefixError => "Mailformed file store identifier"@,
            FileError::FileExists => "Tried to save over existing file"@,
        }
    }

    /// What the error says of itself.
    pub fn to_string(&self) -> (r: String)
        ensures
            r@ == self.message_text(),
    {
        match self {
            FileError::Io(_) => "Failed to read or write file".to_owned(),
            FileError::PathGenerator => "Failed to generate path".to_owned(),
            FileError::IdError => "Error formatting file store identifier".to_owned(),
            FileError::PrefixError => "Mailformed file store identifier".to_owned(),
            FileError::FileExists => "Tried to save over existing file".to_owned(),
        }
    }
}

/// Whether a status says that a request went well.
pub fn is_success(status: u16) -> (r: bool)
    ensures
        r == (200 <= status < 300),
{
    200 <= status && status < 300
}

} // verus!

//! Validators for untrusted input: file contents, URLs and version-5 UUIDs.
//!
//! Every validator is a pure decision over plain values. What it decides
//! is stated over sequences of characters or bytes, and the code is proved
//! to decide exactly that.

pub mod text;
pub mod uuid_format;
pub mod url;
pub mod uuid_binding;
pub mod file;

pub use file::{
    classify, classify_literally, ends_in, matches_extension, validate_file, Classification,
    FileError, MediaKind, Signature,
};
pub use url::{validate_url, UrlError};
pub use uuid_binding::{validate_file_uuid, same_uuid};
pub use uuid_format::validate_uuid;

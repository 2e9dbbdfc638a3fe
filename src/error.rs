//! The library's error type.

use vstd::prelude::*;

verus! {

/// Why a resolution, verification or cache operation failed.
#[derive(Debug)]
pub enum Error {
    /// The distribution name is not recognised, or it has no official source.
    UnsupportedDistro(String),
    /// The version is not available for the distribution.
    UnsupportedVersion { distro: String, version: String },
    /// The HTTP transport failed; the transport's message.
    Http(String),
    /// Downloaded bytes do not hash to the expected value.
    ChecksumMismatch { expected: String, actual: String },
    /// The checksum file holds no entry for the requested file.
    ChecksumParse,
    /// A filesystem operation failed; the operating system's message.
    Io(String),
    /// The index has no product for the distribution, release and architecture.
    ProductNotFound { distro: String, version: String, arch: String },
    /// The product has no build, or its latest build has no root filesystem item.
    RootfsNotFound { product_key: String },
    /// Cache metadata could not be decoded; the decoder's message.
    Json(String),
    /// The archive's file name carries no recognised extension.
    UnsupportedFormat(String),
}

} // verus!

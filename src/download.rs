//! What is computed around a download: digests, their comparison with the
//! expected hash, and the official source of an archive.

use vstd::prelude::*;
use crate::arch::Arch;
use crate::checksum::{after_last, checksum_hash};
use crate::digest::{hex_of, sha256_hex, sha256_of, sha512_hex, sha512_of};
use crate::distro::{slug_of, Distro, Version};
use crate::error::Error;
use crate::lxc::ResolvedImage;
use crate::provider::{
    fill_template, get_official_provider, has_official_spec, official_provider_for, HashAlgorithm,
    TemplateProvider,
};
use crate::text::{chars_of, lower_of, rfind_exec, str_eq};

verus! {

/// The bytes of a completed download and their digest.
pub struct DownloadResult {
    /// Raw bytes of the archive.
    pub data: Vec<u8>,
    /// SHA-256 hex digest of `data`.
    pub sha256: String,
    /// File name, taken from the URL.
    pub filename: String,
}

impl DownloadResult {
    /// Whether `sha256` is the digest of `data`, as for every result this
    /// library builds.
    pub open spec fn wf(&self) -> bool {
        self.sha256@ == hex_of(sha256_of(self.data@))
    }

    /// The SHA-512 hex digest of the data, computed on demand.
    pub fn sha512(&self) -> (r: String)
        ensures
            r@ == hex_of(sha512_of(self.data@)),
    {
        sha512_hex(self.data.as_slice())
    }
}

/// The digest of `result` under `algorithm`: the stored SHA-256, or a fresh
/// SHA-512.
pub open spec fn actual_hash_of(result: DownloadResult, algorithm: HashAlgorithm) -> Seq<char> {
    match algorithm {
        HashAlgorithm::Sha256 => result.sha256@,
        HashAlgorithm::Sha512 => hex_of(sha512_of(result.data@)),
    }
}

/// The digest of `result` under `algorithm`.
pub fn actual_hash(result: &DownloadResult, algorithm: HashAlgorithm) -> (r: String)
    ensures
        r@ == actual_hash_of(*result, algorithm),
{
    match algorithm {
        HashAlgorithm::Sha256 => result.sha256.clone(),
        HashAlgorithm::Sha512 => result.sha512(),
    }
}

/// Whether `r` reports the comparison of `actual` with `expected`: success
/// when they are equal, else a mismatch carrying both.
pub open spec fn checked_as(expected: Seq<char>, actual: Seq<char>, r: Result<(), Error>) -> bool {
    if actual == expected {
        r is Ok
    } else {
        match r {
            Err(Error::ChecksumMismatch { expected: e, actual: a }) => e@ == expected && a@ == actual,
            _ => false,
        }
    }
}

/// Compares the digest of `result` under `algorithm` with `expected`.
pub fn verify_hash(expected: &str, result: &DownloadResult, algorithm: HashAlgorithm) -> (r: Result<
    (),
    Error,
>)
    ensures
        checked_as(expected@, actual_hash_of(*result, algorithm), r),
{
    let actual = actual_hash(result, algorithm);
    if !str_eq(actual.as_str(), expected) {
        return Err(Error::ChecksumMismatch { expected: expected.to_owned(), actual });
    }
    Ok(())
}

/// A download result for `data`, with its SHA-256 digest computed.
pub fn finish_download(data: Vec<u8>, filename: String) -> (r: DownloadResult)
    ensures
        r.data@ == data@,
        r.filename@ == filename@,
        r.wf(),
{
    let sha256 = sha256_hex(data.as_slice());
    DownloadResult { data, sha256, filename }
}

/// Checks bytes downloaded for an image resolved from the unified index
/// against the index's SHA-256: a result on a match, else a mismatch that
/// carries the index's hash and the computed one.
pub fn finish_index_download(resolved: ResolvedImage, data: Vec<u8>) -> (r: Result<
    DownloadResult,
    Error,
>)
    ensures
        match r {
            Ok(res) => res.wf() && res.data@ == data@ && res.filename@ == resolved.filename@
                && res.sha256@ == resolved.sha256@,
            Err(Error::ChecksumMismatch { expected, actual }) => expected@ == resolved.sha256@
                && actual@ == hex_of(sha256_of(data@)) && actual@ != expected@,
            Err(_) => false,
        },
        r is Ok <==> hex_of(sha256_of(data@)) == resolved.sha256@,
{
    let sha256 = sha256_hex(data.as_slice());
    if !str_eq(sha256.as_str(), resolved.sha256.as_str()) {
        return Err(Error::ChecksumMismatch { expected: resolved.sha256, actual: sha256 });
    }
    Ok(DownloadResult { data, sha256, filename: resolved.filename })
}

/// Where the official source serves the archive of `distro`, `version`,
/// `arch`, with the file name (the URL's last segment); `UnsupportedDistro`
/// for a distribution without an official specification.
pub fn official_target(distro: Distro, version: &Version, arch: Arch) -> (r: Result<
    (TemplateProvider, String, String),
    Error,
>)
    ensures
        if has_official_spec(distro) {
            match r {
                Ok((p, url, filename)) => url@ == fill_template(
                    p.config(),
                    p.config().rootfs_url@,
                    version@,
                    arch,
                ) && filename@ == after_last(url@, '/') && official_provider_for(distro, p),
                Err(_) => false,
            }
        } else {
            match r {
                Err(Error::UnsupportedDistro(n)) => n@ == slug_of(distro),
                _ => false,
            }
        },
{
    let provider = match get_official_provider(distro) {
        Some(p) => p,
        None => return Err(Error::UnsupportedDistro(distro.as_str().to_owned())),
    };
    let url = provider.rootfs_url(version, arch);
    let cs = chars_of(url.as_str());
    let n = cs.len();
    let filename = match rfind_exec(&cs, '/') {
        Some(i) => url.as_str().substring_char(i + 1, n).to_owned(),
        None => url.clone(),
    };
    Ok((provider, url, filename))
}

/// Checks a download against the checksum file of its official source: the
/// file's hash for the result's file name, lowercased, compared with the
/// result's digest under the provider's algorithm.
pub fn verify_official(provider: &TemplateProvider, result: &DownloadResult, checksum_text: &str) -> (r: Result<
    (),
    Error,
>)
    ensures
        match checksum_hash(provider.config().checksum_format, checksum_text@, result.filename@) {
            None => r matches Err(Error::ChecksumParse),
            Some(h) => checked_as(
                lower_of(h),
                actual_hash_of(*result, provider.config().hash_algorithm),
                r,
            ),
        },
{
    let expected = match provider.parse_checksum(checksum_text, result.filename.as_str()) {
        Ok(h) => h,
        Err(e) => return Err(e),
    };
    verify_hash(expected.as_str(), result, provider.hash_algorithm())
}

} // verus!

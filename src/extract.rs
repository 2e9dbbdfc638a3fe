//! Archive format detection; unpacking itself is done by the caller.

use vstd::prelude::*;
use crate::cache::CachedRootfs;
use crate::error::Error;
use crate::path::{file_name, file_name_exec};
use crate::text::{ends_with, ends_with_exec};

verus! {

/// Supported archive formats.
#[derive(Debug, Clone, Copy, PartialEq, Eq, Structural)]
pub enum ExtractFormat {
    /// Gzip-compressed tar (`.tar.gz`, `.tgz`).
    TarGz,
    /// XZ-compressed tar (`.tar.xz`, `.txz`).
    TarXz,
}

/// The format that file name `name` announces, if any.
pub open spec fn format_of(name: Seq<char>) -> Option<ExtractFormat> {
    if ends_with(name, ".tar.gz"@) || ends_with(name, ".tgz"@) {
        Some(ExtractFormat::TarGz)
    } else if ends_with(name, ".tar.xz"@) || ends_with(name, ".txz"@) {
        Some(ExtractFormat::TarXz)
    } else {
        None
    }
}

impl ExtractFormat {
    /// The format of the archive at `path`, from its file name's extension;
    /// `UnsupportedFormat` with the file name otherwise.
    pub fn detect(path: &str) -> (r: Result<Self, Error>)
        ensures
            match format_of(file_name(path@)) {
                Some(f) => r == Ok::<ExtractFormat, Error>(f),
                None => match r {
                    Err(Error::UnsupportedFormat(n)) => n@ == file_name(path@),
                    _ => false,
                },
            },
    {
        let name = file_name_exec(path);
        if ends_with_exec(name, ".tar.gz") || ends_with_exec(name, ".tgz") {
            Ok(ExtractFormat::TarGz)
        } else if ends_with_exec(name, ".tar.xz") || ends_with_exec(name, ".txz") {
            Ok(ExtractFormat::TarXz)
        } else {
            Err(Error::UnsupportedFormat(name.to_owned()))
        }
    }
}

/// An unpacking to perform: which archive, where, and in which format.
pub struct ExtractJob {
    /// Path of the archive.
    pub archive: String,
    /// Directory to unpack into.
    pub target: String,
    /// Format of the archive.
    pub format: ExtractFormat,
}

impl CachedRootfs {
    /// The unpacking of this archive into `target`, or `UnsupportedFormat`
    /// before anything touches `target`.
    pub fn extract_to(&self, target: &str) -> (r: Result<ExtractJob, Error>)
        ensures
            match format_of(file_name(self.archive_path@)) {
                Some(f) => match r {
                    Ok(job) => job.archive@ == self.archive_path@ && job.target@ == target@
                        && job.format == f,
                    Err(_) => false,
                },
                None => match r {
                    Err(Error::UnsupportedFormat(n)) => n@ == file_name(self.archive_path@),
                    _ => false,
                },
            },
    {
        let format = match ExtractFormat::detect(self.archive_path.as_str()) {
            Ok(f) => f,
            Err(e) => return Err(e),
        };
        Ok(
            ExtractJob {
                archive: self.archive_path.clone(),
                target: target.to_owned(),
                format,
            },
        )
    }
}

} // verus!

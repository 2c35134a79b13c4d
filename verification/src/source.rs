//! Where a package comes from: a source is told by its shape to be a
//! local directory, a hosted repository or an archive to download.

use crate::text::{ends_with, starts_with};
use vstd::prelude::*;

verus! {

/// How an archive is packed.
#[derive(Debug, Clone, Copy, PartialEq, Eq, Structural)]
pub enum ArchiveFormat {
    Zip,
    TarGz,
}

/// What a source is.
#[derive(Debug, Clone, Copy, PartialEq, Eq, Structural)]
pub enum SourceKind {
    /// A directory on this machine, used where it is.
    LocalDirectory,
    /// A repository to clone.
    Repository,
    /// An archive to download and unpack.
    Archive(ArchiveFormat),
}

/// A source whose shape is none of those that are known.
#[derive(Debug, PartialEq, Eq)]
pub struct SourceError {
    pub source: String,
}

/// The address that the sources of hosted repositories start with.
pub const REPOSITORY_HOST: &'static str = "https://github.com";

/// What the name of a zip archive ends with.
pub const ZIP_SUFFIX: &'static str = ".zip";

/// What the name of a compressed tar archive ends with.
pub const TAR_GZ_SUFFIX: &'static str = ".tar.gz";

/// How the archive that `source` names is packed, told by the end of the
/// name: `None` where it names no archive.
pub open spec fn archive_format_of(source: Seq<char>) -> Option<ArchiveFormat> {
    if ZIP_SUFFIX@.is_suffix_of(source) {
        Some(ArchiveFormat::Zip)
    } else if TAR_GZ_SUFFIX@.is_suffix_of(source) {
        Some(ArchiveFormat::TarGz)
    } else {
        None
    }
}

/// What `source` is, where `is_directory` says whether it names a
/// directory on this machine. A directory is used where it is. Any other
/// source that names an archive is one, on the repository host too; a
/// source on the repository host that names no archive is a repository.
/// Nothing else is a source.
pub open spec fn classified(source: Seq<char>, is_directory: bool) -> Option<SourceKind> {
    if is_directory {
        Some(SourceKind::LocalDirectory)
    } else {
        match archive_format_of(source) {
            Some(format) => Some(SourceKind::Archive(format)),
            None => {
                if REPOSITORY_HOST@.is_prefix_of(source) {
                    Some(SourceKind::Repository)
                } else {
                    None
                }
            },
        }
    }
}

/// How the archive that `source` names is packed.
pub fn archive_format(source: &str) -> (format: Option<ArchiveFormat>)
    ensures
        format == archive_format_of(source@),
{
    if ends_with(source, ZIP_SUFFIX) {
        Some(ArchiveFormat::Zip)
    } else if ends_with(source, TAR_GZ_SUFFIX) {
        Some(ArchiveFormat::TarGz)
    } else {
        None
    }
}

/// Tells what `source` is, where `is_directory` says whether it names a
/// directory on this machine.
pub fn classify_source(source: &str, is_directory: bool) -> (result: Result<
    SourceKind,
    SourceError,
>)
    ensures
        match result {
            Ok(kind) => classified(source@, is_directory) == Some(kind),
            Err(error) => classified(source@, is_directory) is None && error.source@ == source@,
        },
{
    if is_directory {
        return Ok(SourceKind::LocalDirectory);
    }
    match archive_format(source) {
        Some(format) => Ok(SourceKind::Archive(format)),
        None => {
            if starts_with(source, REPOSITORY_HOST) {
                Ok(SourceKind::Repository)
            } else {
                Err(SourceError { source: String::from_str(source) })
            }
        },
    }
}

} // verus!

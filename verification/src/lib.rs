//! Turns a declarative package manifest into a binary package in the Debian
//! `.deb` container format: manifest validation, control-metadata rendering,
//! and construction of the nested archive structure — an `ar` container
//! holding `debian-binary`, `control.tar.gz` and `data.tar.gz`. Every byte of
//! the archives is pinned by the contracts, timestamps and ownership are
//! fixed, so builds of the same inputs are byte-identical. Reading the
//! manifest and the source files from disk, and writing the output, are the
//! caller's business: the library works on plain values.

pub mod ar;
pub mod bytes;
pub mod control;
pub mod deb;
pub mod manifest;
pub mod tar;
pub mod utils;

use vstd::prelude::*;

verus! {

/// The error kinds the packaging pipeline reports. Every failure is terminal:
/// each one reflects a malformed manifest or an unusable input, never a
/// transient condition worth retrying.
#[derive(Debug, Clone, Copy, PartialEq, Eq, Structural)]
pub enum PackError {
    /// The manifest text is not well-formed JSON or does not match the schema.
    ManifestParseError,
    /// `name`, `version` or `files` is absent or empty.
    MissingField,
    /// `arch` is present but not one of the recognized values.
    InvalidArchitecture,
    /// A declared source file does not exist.
    SourceFileNotFound,
    /// Two file-mapping entries resolve to the same destination path.
    DuplicateDestination,
    /// An archive member could not be written or compressed.
    IoError,
    /// The container members are not exactly the three expected ones in order.
    InvalidMemberLayout,
}

} // verus!

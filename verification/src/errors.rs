//! The error kinds that the pipeline can surface.

use vstd::prelude::*;

use crate::platform::{Arch, Os};

verus! {

/// Why a run failed. Every failure of the library is one of these; the
/// surrounding program decides how to print them.
#[derive(Debug, Clone, Copy, PartialEq, Eq, Structural)]
pub enum Error {
    /// An OS or architecture token outside the supported set.
    UnsupportedPlatform,
    /// No asset survived the platform and exclusion filters for this
    /// OS/architecture pair.
    NoMatchingAsset(Os, Arch),
    /// Transport or sink failure while streaming the asset body.
    DownloadFailed,
    /// Malformed zip, gzip, or tar structure in the payload.
    ArchiveReadError,
    /// No archive entry path ends with the target executable name.
    ExecutableNotFound,
    /// A filesystem operation on the payload's backing store failed.
    FilesystemError,
}

} // verus!

//! The ways in which dumping the offsets can fail.

use vstd::prelude::*;

verus! {

/// A failure of the dumper.
#[derive(Debug, Clone, Copy, PartialEq, Eq, Structural)]
pub enum OffsetDumperError {
    /// radare2 could not be started.
    Radare2NotFoundError,
    /// radare2 is older than the least accepted major version.
    Radare2VersionError,
    /// The given `ntoskrnl.exe` path names no file.
    NtoskrnlNotValidError,
    /// radare2 reported an error while reading the file's information.
    NtoskrnlDownloadingPdbError,
    /// No file version line was found in the file's information.
    NtoskrnlVersionNotFoundError,
    /// radare2 reported an error while dumping the symbols, or none was found.
    NtoskrnlDumpingOffsetsError,
    /// The given PDB path names nothing.
    PdbFileNotFoundError,
}

} // verus!

//! Fixed names, patterns and markers of the radare2 interaction.

use vstd::prelude::*;

verus! {

/// The name under which radare2 is run.
pub const RADARE_EXECUTABLE_NAME: &'static str = "radare2";

/// Where `ntoskrnl.exe` is looked for when no path is given.
pub const NTOSKRNL_DEFAULT_EXECUTABLE_FILE: &'static str = "C:/Windows/System32/ntoskrnl.exe";

/// The pattern by which a version number `major.minor.patch` is found in
/// the output of `radare2 -V`.
pub const SEMANTIC_VERSIONING_REGEX: &'static str = r"(0|(?:[1-9]\d*))(?:\.(0|(?:[1-9]\d*))(?:\.(0|(?:[1-9]\d*)))?(?:\-([\w][\w\.\-_]*))?)?";

/// The pattern by which an offset is found on a line of radare2's output.
pub const OFFSETS_REGEX: &'static str = r"0x[a-f0-9]+";

/// The label of the file version line in the output of `radare2 -c iV`.
pub const EXPECTED_FILE_VERSION_INFO: &'static str = "FileVersion:";

/// The least major version of radare2 that is accepted.
pub const EXPECTED_RADARE_MAJOR_VERSION: i8 = 5;

} // verus!

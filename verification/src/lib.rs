//! Extraction of Windows kernel structure offsets from the text that radare2
//! prints for `ntoskrnl.exe` and its PDB.
//!
//! The library decides; running radare2 and touching the file system is
//! left to its caller, which hands the library what radare2 printed.

pub mod constants;
pub mod dumper;
pub mod errors;
pub mod matching;
pub mod report;
pub mod symbols;
pub mod text;
pub mod version;

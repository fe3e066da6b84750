//! Inspection of native executable images.
//!
//! The crate parses an ELF container from a byte buffer, resolves code
//! addresses to symbol names (including synthesized procedure-linkage-table
//! entries), plans and records per-symbol disassembly on demand, and extracts
//! the dynamic-dependency metadata.  Every function is verified against the
//! contracts stated on it.

pub mod bytes;
pub mod catalog;
pub mod deps;
pub mod disasm;
pub mod elf;
pub mod hash;
pub mod loader;
pub mod numfmt;
pub mod reader;
pub mod resolver;
pub mod section;
pub mod summary;
pub mod text;

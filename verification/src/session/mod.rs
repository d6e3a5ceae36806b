//! The portable session file: its records, its checksum, the checks an
//! import runs, the plan of a merge, and the assembly of an export.
pub mod checksum;
pub mod export;
pub mod import;
pub mod types;

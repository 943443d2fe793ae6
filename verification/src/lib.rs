//! Instruction census for x86-64 ELF binaries: locate the code section of a
//! parsed container, fingerprint the file, decode the section and count how
//! often each mnemonic occurs.

pub mod container;
pub mod decode;
pub mod digest;
pub mod error;
pub mod input;
pub mod report;
pub mod tally;

//! A compact binary codec for biological sequence data.
//!
//! Symbols of three fixed alphabets are packed into as few bits as their
//! alphabet needs (2, 4 or 5), records carry length prefixes, and a file is
//! one header byte followed by its records.
pub mod alphabet;
pub mod bits;
pub mod entry;
pub mod error;
pub mod file;
pub mod packing;
pub mod sequences;

//! Text extraction from the string and message tables of a resource-only
//! Windows module (a "MUI" file).
//!
//! The resource section of such a file holds a three-level directory tree
//! (type, name, language) followed by an array of data entries.  The library
//! walks the tree in the order in which it lies in the file, finds the run of
//! data entries that belongs to the string table or the message table, and
//! decodes the length-prefixed UTF-16 records that each entry points at.
//!
//! The PE container around the resource section is parsed by the caller, who
//! hands over the file's bytes and, as a [`pe::PeImage`], the optional header
//! and the section table that it found.

pub mod directory;
pub mod error;
pub mod extract;
pub mod locate;
pub mod outside;
pub mod pe;
pub mod reader;
pub mod records;
pub mod strings;
pub mod utf16;
pub mod walk;

pub use crate::extract::get_strings;

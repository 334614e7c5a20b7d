//! Renders binary data as a least-significant-byte-first dump: every group of
//! four bytes becomes one line of four 8-bit binary strings, last byte first,
//! optionally followed by the byte offset of the group.
//!
//! The library performs no input or output. [`dump::lsbf_dump`] dumps bytes
//! that are already in memory. For a file or the console, the owner of the
//! source runs a [`session::DumpSession`]: it reads four bytes whenever the
//! session asks for a group and hands over what the read gave. [`source`]
//! tells which kind of source an identifier names and how the console answers
//! a seek, and [`render`] turns bytes and addresses into text.

pub mod dump;
pub mod render;
pub mod session;
pub mod source;

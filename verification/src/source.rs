//! Where the bytes come from: which kind of source an identifier names, and
//! how the console behaves when it is asked to seek.

use vstd::prelude::*;

verus! {

/// The kinds of byte source.
#[derive(Clone, Copy, Debug, PartialEq, Eq, Structural)]
pub enum SourceKind {
    /// The standard input of the process.
    StandardInput,
    /// A file, named by its path.
    File,
}

/// Whether `identifier` is the one that stands for standard input: a single
/// hyphen. Every other identifier is a path.
pub open spec fn names_standard_input(identifier: Seq<char>) -> bool {
    identifier =~= seq!['-']
}

/// The kind of source that `identifier` names.
pub fn source_kind(identifier: &str) -> (kind: SourceKind)
    ensures
        names_standard_input(identifier@) ==> kind == SourceKind::StandardInput,
        !names_standard_input(identifier@) ==> kind == SourceKind::File,
{
    if identifier.unicode_len() == 1 && identifier.get_char(0) == '-' {
        SourceKind::StandardInput
    } else {
        SourceKind::File
    }
}

/// Standard input with a seek operation. The console cannot be repositioned,
/// so a seek moves within an empty buffer that stands in for it. Once the
/// position is anywhere but the start, nothing can be read: every read meets
/// the end of that buffer, whatever the console itself still holds.
#[derive(Debug)]
pub struct StdinWithSeek {
    position: u64,
}

impl StdinWithSeek {
    /// The position that the last seek reached; zero before any seek.
    pub closed spec fn position(&self) -> u64 {
        self.position
    }

    /// Whether reads meet the end of the stream without asking the console.
    pub open spec fn ended(&self) -> bool {
        self.position() != 0
    }

    /// Standard input that has not been asked to seek.
    pub fn new() -> (source: StdinWithSeek)
        ensures
            source.position() == 0,
    {
        StdinWithSeek { position: 0 }
    }

    /// Seeks to `offset`, counted from the start, and returns the position
    /// reached. This cannot fail.
    pub fn seek(&mut self, offset: u64) -> (reached: u64)
        ensures
            reached == offset,
            final(self).position() == offset,
    {
        self.position = offset;
        offset
    }

    /// Whether the next read meets the end of the stream at once. Where this
    /// is false, the read is the console's.
    pub fn at_end_of_stream(&self) -> (ended: bool)
        ensures
            ended == self.ended(),
    {
        self.position != 0
    }
}

} // verus!

//! A dump in progress, for byte sources that are read one group at a time.

use crate::render::{format_line, line_text};
use vstd::prelude::*;

verus! {

/// What one attempt to read a group from a byte source gave.
#[derive(Clone, Copy, Debug)]
pub enum ReadOutcome {
    /// Four bytes, in stream order.
    Group([u8; 4]),
    /// The stream ended before four bytes could be read.
    EndOfStream,
    /// The source reported an error.
    Failed,
}

/// The state of a dump session as contracts see it.
pub struct SessionView {
    pub offset: nat,
    pub length: nat,
    pub show_address: bool,
    pub lines: Seq<Seq<char>>,
    pub stopped: bool,
}

impl SessionView {
    /// The bytes consumed so far, counted from where reading started.
    pub open spec fn consumed(self) -> nat {
        4 * self.lines.len()
    }

    /// Whether the session asks for another group.
    pub open spec fn wants_group(self) -> bool {
        !self.stopped && self.consumed() < self.length
    }

    /// The session after one read. A group adds its line; the end of the
    /// stream stops the session, and so does a failed read: the two are not
    /// told apart, and the lines gathered before either are kept. A session
    /// that asks for nothing ignores what it is given.
    pub open spec fn after(self, outcome: ReadOutcome) -> SessionView {
        if !self.wants_group() {
            self
        } else {
            match outcome {
                ReadOutcome::Group(group) => SessionView {
                    lines: self.lines.push(
                        line_text(group@, self.offset + self.consumed(), self.show_address),
                    ),
                    ..self
                },
                ReadOutcome::EndOfStream | ReadOutcome::Failed => SessionView {
                    stopped: true,
                    ..self
                },
            }
        }
    }
}

/// A dump in progress. Whoever owns the byte source reads a group whenever
/// the session asks for one and hands over what the read gave.
pub struct DumpSession {
    offset: u64,
    length: u64,
    show_address: bool,
    lines: Vec<String>,
    stopped: bool,
}

impl View for DumpSession {
    type V = SessionView;

    closed spec fn view(&self) -> SessionView {
        SessionView {
            offset: self.offset as nat,
            length: self.length as nat,
            show_address: self.show_address,
            lines: self.lines.deep_view(),
            stopped: self.stopped,
        }
    }
}

impl DumpSession {
    /// Starts a dump of at most `length` bytes of a stream that has been
    /// positioned at byte `offset`.
    pub fn new(offset: u64, length: u64, show_address: bool) -> (session: DumpSession)
        ensures
            session@ == (SessionView {
                offset: offset as nat,
                length: length as nat,
                show_address,
                lines: Seq::empty(),
                stopped: false,
            }),
    {
        let session = DumpSession { offset, length, show_address, lines: Vec::new(), stopped: false };
        assert(session.lines.deep_view() =~= Seq::empty());
        session
    }

    /// Whether another group should be read.
    pub fn wants_group(&self) -> (wanted: bool)
        ensures
            wanted == self@.wants_group(),
    {
        !self.stopped && (self.lines.len() as u128) * 4 < self.length as u128
    }

    /// Takes in what the read that the session asked for gave.
    pub fn advance(&mut self, outcome: ReadOutcome)
        ensures
            final(self)@ == old(self)@.after(outcome),
    {
        if self.wants_group() {
            match outcome {
                ReadOutcome::Group(group) => {
                    let address: u128 = self.offset as u128 + (self.lines.len() as u128) * 4;
                    let line = format_line(&group, address, self.show_address);
                    self.lines.push(line);
                    assert(self.lines.deep_view() =~= old(self).lines.deep_view().push(line@));
                },
                ReadOutcome::EndOfStream | ReadOutcome::Failed => {
                    self.stopped = true;
                },
            }
        }
    }

    /// Ends the session and hands out its lines.
    pub fn into_lines(self) -> (lines: Vec<String>)
        ensures
            lines.deep_view() == self@.lines,
    {
        self.lines
    }
}

} // verus!

//! The dump of a byte stream: which of its groups become lines, what the
//! lines are, and the dump of bytes held in memory.

use crate::render::{address_text, binary_digits, group_text, line_text};
use crate::session::{DumpSession, ReadOutcome, SessionView};
use vstd::prelude::*;

verus! {

/// The `index`-th group of four bytes of `data`.
pub open spec fn group_at(data: Seq<u8>, index: int) -> Seq<u8> {
    data.subrange(4 * index, 4 * index + 4)
}

/// How many groups are dumped when `available` bytes can be read and at most
/// `length` bytes are asked for: reading goes on while the bytes consumed are
/// fewer than `length`, and stops at the first group that is not whole.
pub open spec fn group_count(available: nat, length: nat) -> nat {
    let wanted = (length + 3) / 4;
    let whole = available / 4;
    if wanted <= whole {
        wanted
    } else {
        whole
    }
}

/// The lines of the dump of `data`, which starts at byte `offset` of its
/// stream: one line per group, in stream order. The address of a group is
/// `offset` plus the bytes before the group, as a natural number: it is never
/// reduced to fit 64 bits.
pub open spec fn dump_lines(data: Seq<u8>, offset: nat, length: nat, show_address: bool) -> Seq<
    Seq<char>,
> {
    Seq::new(
        group_count(data.len(), length),
        |i: int| line_text(group_at(data, i), (offset + 4 * i) as nat, show_address),
    )
}

/// A stream that holds exactly `k` whole groups, all of which are asked for,
/// is dumped in exactly `k` lines.
pub proof fn lemma_whole_groups_give_a_line_each(
    data: Seq<u8>,
    offset: nat,
    length: nat,
    show_address: bool,
    k: nat,
)
    requires
        data.len() == 4 * k,
        length >= 4 * k,
    ensures
        dump_lines(data, offset, length, show_address).len() == k,
{
}

/// A stream that is shorter than what is asked for is dumped up to its last
/// whole group: a quarter of its bytes, rounded down, and no line for what
/// is left over.
pub proof fn lemma_short_stream_gives_whole_groups_only(
    data: Seq<u8>,
    offset: nat,
    length: nat,
    show_address: bool,
)
    requires
        data.len() < length,
    ensures
        dump_lines(data, offset, length, show_address).len() == data.len() / 4,
{
}

/// Asking for no bytes gives no lines, whatever the stream holds.
pub proof fn lemma_zero_length_gives_no_lines(data: Seq<u8>, offset: nat, show_address: bool)
    ensures
        dump_lines(data, offset, 0, show_address) == Seq::<Seq<char>>::empty(),
{
    assert(dump_lines(data, offset, 0, show_address) =~= Seq::<Seq<char>>::empty());
}

/// Two streams with the same bytes, dumped with the same parameters, give
/// the same lines.
pub proof fn lemma_same_bytes_give_same_lines(
    first: Seq<u8>,
    second: Seq<u8>,
    offset: nat,
    length: nat,
    show_address: bool,
)
    requires
        first.len() == second.len(),
        forall|i: int| 0 <= i < first.len() ==> first[i] == second[i],
    ensures
        dump_lines(first, offset, length, show_address) == dump_lines(
            second,
            offset,
            length,
            show_address,
        ),
{
    assert(first =~= second);
}

/// Line `i` of a dump shows the four bytes of group `i` in reverse stream
/// order, and the address it carries is `offset` plus the bytes before it.
pub proof fn lemma_line_shows_its_group_reversed(
    data: Seq<u8>,
    offset: nat,
    length: nat,
    show_address: bool,
    i: int,
)
    requires
        0 <= i < group_count(data.len(), length),
    ensures
        4 * i + 4 <= data.len(),
        dump_lines(data, offset, length, show_address)[i] == binary_digits(data[4 * i + 3]) + seq![
            ' ',
        ] + binary_digits(data[4 * i + 2]) + seq![' '] + binary_digits(data[4 * i + 1]) + seq![' ']
            + binary_digits(data[4 * i]) + (if show_address {
            address_text((offset + 4 * i) as nat)
        } else {
            Seq::empty()
        }),
{
    let shown = binary_digits(data[4 * i + 3]) + seq![' '] + binary_digits(data[4 * i + 2]) + seq![
        ' ',
    ] + binary_digits(data[4 * i + 1]) + seq![' '] + binary_digits(data[4 * i]);
    assert(group_text(group_at(data, i)) == shown);
    assert(shown + Seq::<char>::empty() =~= shown);
}

/// Whether `outcome` is what read number `index` of a stream that holds
/// `data` gives when no read fails: group `index` as long as the stream has
/// it whole, and the end of the stream from then on.
pub open spec fn reads_from(data: Seq<u8>, index: int, outcome: ReadOutcome) -> bool {
    if 4 * index + 4 <= data.len() {
        outcome matches ReadOutcome::Group(group) && group@ == group_at(data, index)
    } else {
        outcome is EndOfStream
    }
}

/// Whether `session` is on its way through the dump of `data`: its lines are
/// the first lines of that dump, and if it was stopped, then where the dump
/// ends.
pub open spec fn on_track(session: SessionView, data: Seq<u8>) -> bool {
    let whole = dump_lines(data, session.offset, session.length, session.show_address);
    &&& session.lines.len() <= whole.len()
    &&& session.lines == whole.take(session.lines.len() as int)
    &&& session.stopped ==> session.lines.len() == whole.len()
}

/// A session that has read nothing is on its way through the dump of any
/// stream.
pub proof fn lemma_fresh_session_is_on_track(session: SessionView, data: Seq<u8>)
    requires
        session.lines.len() == 0,
        !session.stopped,
    ensures
        on_track(session, data),
{
    let whole = dump_lines(data, session.offset, session.length, session.show_address);
    assert(session.lines =~= whole.take(0));
}

/// A session on its way through the dump of `data` stays on it when it is
/// given what the stream gives next.
pub proof fn lemma_read_keeps_session_on_track(
    session: SessionView,
    data: Seq<u8>,
    outcome: ReadOutcome,
)
    requires
        on_track(session, data),
        reads_from(data, session.lines.len() as int, outcome),
    ensures
        on_track(session.after(outcome), data),
{
    let whole = dump_lines(data, session.offset, session.length, session.show_address);
    let n = session.lines.len() as int;
    if session.wants_group() {
        match outcome {
            ReadOutcome::Group(group) => {
                assert(session.after(outcome).lines =~= whole.take(n + 1));
            },
            _ => {},
        }
    }
}

/// Once a session on its way through the dump of `data` asks for no more,
/// its lines are that dump.
pub proof fn lemma_idle_session_holds_the_dump(session: SessionView, data: Seq<u8>)
    requires
        on_track(session, data),
        !session.wants_group(),
    ensures
        session.lines == dump_lines(data, session.offset, session.length, session.show_address),
{
    let whole = dump_lines(data, session.offset, session.length, session.show_address);
    assert(whole.take(whole.len() as int) =~= whole);
}

/// Reads the group that starts at `position` of `data`, as a byte source
/// that holds `data` and never fails would.
fn read_group(data: &[u8], position: usize) -> (outcome: ReadOutcome)
    requires
        position <= data@.len(),
        position % 4 == 0,
    ensures
        reads_from(data@, position as int / 4, outcome),
{
    if data.len() - position >= 4 {
        let group: [u8; 4] = [
            data[position],
            data[position + 1],
            data[position + 2],
            data[position + 3],
        ];
        assert(group@ =~= group_at(data@, position as int / 4));
        ReadOutcome::Group(group)
    } else {
        ReadOutcome::EndOfStream
    }
}

/// Dumps the bytes that `reader` holds: every whole group of four bytes
/// becomes one line, until `length` bytes have been consumed or fewer than
/// four bytes are left. `offset` is the place of the first byte in its
/// stream; it shows in the addresses and skips nothing.
pub fn lsbf_dump(reader: &[u8], offset: u64, length: u64, show_address: bool) -> (lines: Vec<
    String,
>)
    ensures
        lines.deep_view() == dump_lines(reader@, offset as nat, length as nat, show_address),
        lines@.len() == group_count(reader@.len(), length as nat),
        length == 0 ==> lines@.len() == 0,
        reader@.len() % 4 == 0 && length >= reader@.len() ==> 4 * lines@.len() == reader@.len(),
        reader@.len() < length ==> lines@.len() == reader@.len() / 4,
{
    let mut session = DumpSession::new(offset, length, show_address);
    let mut position: usize = 0;
    proof {
        lemma_fresh_session_is_on_track(session@, reader@);
    }
    while session.wants_group()
        invariant
            session@.offset == offset,
            session@.length == length,
            session@.show_address == show_address,
            on_track(session@, reader@),
            !session@.stopped ==> position == session@.consumed(),
            position <= reader.len(),
        decreases
            (if session@.wants_group() {
                1 + session@.length - session@.consumed()
            } else {
                0
            }),
    {
        let outcome = read_group(reader, position);
        proof {
            lemma_read_keeps_session_on_track(session@, reader@, outcome);
        }
        session.advance(outcome);
        if let ReadOutcome::Group(_) = outcome {
            position = position + 4;
        }
    }
    proof {
        lemma_idle_session_holds_the_dump(session@, reader@);
    }
    session.into_lines()
}

} // verus!

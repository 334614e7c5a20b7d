//! Text rendering of bytes, addresses and whole dump lines.

use vstd::arithmetic::div_mod::{lemma_basic_div, lemma_div_decreases, lemma_mod_bound};
use vstd::prelude::*;

verus! {

/// The character that stands for the digit `d` in bases up to sixteen.
pub open spec fn digit_char(d: nat) -> char {
    "0123456789ABCDEF"@[d as int]
}

/// Positional notation of `value` in `base`, most significant digit first,
/// padded with zeros on the left to at least `width` digits.
pub open spec fn digits(value: nat, base: nat, width: nat) -> Seq<char>
    recommends
        2 <= base <= 16,
    decreases value, width,
{
    if base < 2 {
        Seq::empty()
    } else if value < base && width <= 1 {
        seq![digit_char(value)]
    } else {
        proof {
            if value >= base {
                lemma_div_decreases(value as int, base as int);
            } else {
                lemma_basic_div(value as int, base as int);
            }
        }
        digits(value / base, base, if width > 0 { (width - 1) as nat } else { 0 }).push(
            digit_char(value % base),
        )
    }
}

/// The eight binary digits of a byte, most significant bit first.
pub open spec fn binary_digits(b: u8) -> Seq<char> {
    digits(b as nat, 2, 8)
}

/// The digit that shows bit `k` of `b`, bit 0 being the least significant.
pub open spec fn bit_char(b: u8, k: u8) -> char {
    if b & (1u8 << k) != 0 {
        '1'
    } else {
        '0'
    }
}

/// The binary digits of a byte are its eight bits, from bit 7 down to bit 0.
pub proof fn lemma_binary_digits_show_bits(b: u8)
    ensures
        binary_digits(b) == seq![
            bit_char(b, 7),
            bit_char(b, 6),
            bit_char(b, 5),
            bit_char(b, 4),
            bit_char(b, 3),
            bit_char(b, 2),
            bit_char(b, 1),
            bit_char(b, 0),
        ],
{
    reveal_with_fuel(digits, 9);
    reveal_strlit("0123456789ABCDEF");
    assert((b / 128) % 2 == 1 <==> b & (1u8 << 7u8) != 0) by (bit_vector);
    assert((b / 64) % 2 == 1 <==> b & (1u8 << 6u8) != 0) by (bit_vector);
    assert((b / 32) % 2 == 1 <==> b & (1u8 << 5u8) != 0) by (bit_vector);
    assert((b / 16) % 2 == 1 <==> b & (1u8 << 4u8) != 0) by (bit_vector);
    assert((b / 8) % 2 == 1 <==> b & (1u8 << 3u8) != 0) by (bit_vector);
    assert((b / 4) % 2 == 1 <==> b & (1u8 << 2u8) != 0) by (bit_vector);
    assert((b / 2) % 2 == 1 <==> b & (1u8 << 1u8) != 0) by (bit_vector);
    assert(b % 2 == 1 <==> b & (1u8 << 0u8) != 0) by (bit_vector);
    assert(binary_digits(b) =~= seq![
        bit_char(b, 7),
        bit_char(b, 6),
        bit_char(b, 5),
        bit_char(b, 4),
        bit_char(b, 3),
        bit_char(b, 2),
        bit_char(b, 1),
        bit_char(b, 0),
    ]);
}

/// The text of a group of four bytes: the binary digits of each byte, the
/// byte read last first, with one space between neighbours.
pub open spec fn group_text(group: Seq<u8>) -> Seq<char>
    recommends
        group.len() == 4,
{
    binary_digits(group[3]) + seq![' '] + binary_digits(group[2]) + seq![' '] + binary_digits(
        group[1],
    ) + seq![' '] + binary_digits(group[0])
}

/// The hexadecimal digits of an address: upper case, at least eight of them.
pub open spec fn hex_digits(address: nat) -> Seq<char> {
    digits(address, 16, 8)
}

/// An address is shown in at least eight digits, and in exactly eight while
/// it fits in 32 bits.
pub proof fn lemma_hex_digits_width(address: nat)
    ensures
        hex_digits(address).len() >= 8,
        address < 0x1_0000_0000 ==> hex_digits(address).len() == 8,
{
    reveal_with_fuel(digits, 9);
}

/// The digits of an address that fits in 32 bits are its eight groups of four
/// bits, the most significant first.
pub proof fn lemma_hex_digits_show_nibbles(address: nat)
    requires
        address < 0x1_0000_0000,
    ensures
        hex_digits(address) == seq![
            digit_char(address / 0x1000_0000 % 16),
            digit_char(address / 0x100_0000 % 16),
            digit_char(address / 0x10_0000 % 16),
            digit_char(address / 0x1_0000 % 16),
            digit_char(address / 0x1000 % 16),
            digit_char(address / 0x100 % 16),
            digit_char(address / 0x10 % 16),
            digit_char(address % 16),
        ],
{
    reveal_with_fuel(digits, 9);
    assert(hex_digits(address) =~= seq![
        digit_char(address / 0x1000_0000 % 16),
        digit_char(address / 0x100_0000 % 16),
        digit_char(address / 0x10_0000 % 16),
        digit_char(address / 0x1_0000 % 16),
        digit_char(address / 0x1000 % 16),
        digit_char(address / 0x100 % 16),
        digit_char(address / 0x10 % 16),
        digit_char(address % 16),
    ]);
}

/// What follows the group on a line that shows its address.
pub open spec fn address_text(address: nat) -> Seq<char> {
    seq![' ', '|', ' ', '0', 'x'] + hex_digits(address)
}

/// One line of the dump: the group, then its address where that is shown.
pub open spec fn line_text(group: Seq<u8>, address: nat, show_address: bool) -> Seq<char>
    recommends
        group.len() == 4,
{
    if show_address {
        group_text(group) + address_text(address)
    } else {
        group_text(group)
    }
}

/// The one-character text of a single digit.
fn digit_str(d: u8) -> (text: &'static str)
    requires
        d < 16,
    ensures
        text@ == seq![digit_char(d as nat)],
{
    let alphabet: &'static str = "0123456789ABCDEF";
    proof {
        reveal_strlit("0123456789ABCDEF");
    }
    let position: usize = d as usize;
    alphabet.substring_ascii(position, position + 1)
}

/// Appends the digits of `value` in `base` to `text`, at least `width` of them.
fn push_digits(text: &mut String, value: u128, base: u128, width: u32)
    requires
        2 <= base <= 16,
    ensures
        final(text)@ == old(text)@ + digits(value as nat, base as nat, width as nat),
    decreases value, width,
{
    if value < base && width <= 1 {
        text.append(digit_str(value as u8));
    } else {
        proof {
            if value >= base {
                lemma_div_decreases(value as int, base as int);
            } else {
                lemma_basic_div(value as int, base as int);
            }
            lemma_mod_bound(value as int, base as int);
        }
        let narrower: u32 = if width > 0 { width - 1 } else { 0 };
        push_digits(text, value / base, base, narrower);
        text.append(digit_str((value % base) as u8));
    }
}

/// Renders a byte as eight binary digits, most significant bit first.
pub fn byte_to_binary_string(b: u8) -> (text: String)
    ensures
        text@ == binary_digits(b),
{
    let mut text = String::new();
    push_digits(&mut text, b as u128, 2, 8);
    text
}

/// Renders an address as upper-case hexadecimal, padded to eight digits.
pub fn address_to_hex_string(address: u128) -> (text: String)
    ensures
        text@ == hex_digits(address as nat),
{
    let mut text = String::new();
    push_digits(&mut text, address, 16, 8);
    text
}

/// Renders one line of the dump for a group that starts at `address`.
pub fn format_line(group: &[u8; 4], address: u128, show_address: bool) -> (line: String)
    ensures
        line@ == line_text(group@, address as nat, show_address),
{
    proof {
        reveal_strlit(" ");
        reveal_strlit(" | 0x");
    }
    let mut line = byte_to_binary_string(group[3]);
    line.append(" ");
    line.append(byte_to_binary_string(group[2]).as_str());
    line.append(" ");
    line.append(byte_to_binary_string(group[1]).as_str());
    line.append(" ");
    line.append(byte_to_binary_string(group[0]).as_str());
    if show_address {
        line.append(" | 0x");
        line.append(address_to_hex_string(address).as_str());
    }
    line
}

} // verus!

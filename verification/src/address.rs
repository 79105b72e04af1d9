//! Compositor addresses: hexadecimal text with any number of `0x` prefixes.
use vstd::prelude::*;

use crate::text::{chars_of, hex_digit, hex_text};

verus! {

/// The value of a hexadecimal digit of either case.
pub open spec fn digit_value(c: char) -> Option<nat> {
    if '0' <= c <= '9' {
        Some((c as nat - '0' as nat) as nat)
    } else if 'a' <= c <= 'f' {
        Some((c as nat - 'a' as nat + 10) as nat)
    } else if 'A' <= c <= 'F' {
        Some((c as nat - 'A' as nat + 10) as nat)
    } else {
        None
    }
}

/// The number that a run of hexadecimal digits stands for; `None` when a
/// character is no digit. The empty run stands for zero.
pub open spec fn digits_value(digits: Seq<char>) -> Option<nat>
    decreases digits.len(),
{
    if digits.len() == 0 {
        Some(0)
    } else {
        match (digits_value(digits.drop_last()), digit_value(digits.last())) {
            (Some(high), Some(low)) => Some(high * 16 + low),
            _ => None,
        }
    }
}

/// A text without the `0x` prefixes that it starts with.
pub open spec fn without_prefixes(text: Seq<char>) -> Seq<char>
    decreases text.len(),
{
    if text.len() >= 2 && text[0] == '0' && text[1] == 'x' {
        without_prefixes(text.skip(2))
    } else {
        text
    }
}

/// A text without one leading plus sign.
pub open spec fn without_plus(text: Seq<char>) -> Seq<char> {
    if text.len() > 0 && text[0] == '+' {
        text.skip(1)
    } else {
        text
    }
}

/// The address that a text denotes: after its `0x` prefixes and an optional
/// plus sign, at least one hexadecimal digit and nothing else, with a value
/// that fits into sixty-four bits.
pub open spec fn address_of(text: Seq<char>) -> Option<u64> {
    let digits = without_plus(without_prefixes(text));
    if digits.len() == 0 {
        None
    } else {
        match digits_value(digits) {
            Some(value) if value <= u64::MAX => Some(value as u64),
            _ => None,
        }
    }
}

fn digit_of(c: char) -> (value: Option<u64>)
    ensures
        match value {
            Some(v) => digit_value(c) == Some(v as nat) && v < 16,
            None => digit_value(c) is None,
        },
{
    if '0' <= c && c <= '9' {
        Some((c as u32 - '0' as u32) as u64)
    } else if 'a' <= c && c <= 'f' {
        Some((c as u32 - 'a' as u32 + 10) as u64)
    } else if 'A' <= c && c <= 'F' {
        Some((c as u32 - 'A' as u32 + 10) as u64)
    } else {
        None
    }
}

/// More digits never turn a text back into a number that fits.
proof fn lemma_prefix_decides(digits: Seq<char>, n: int)
    requires
        0 <= n <= digits.len(),
    ensures
        digits_value(digits.take(n)) is None ==> digits_value(digits) is None,
        digits_value(digits) matches Some(all) ==> digits_value(digits.take(n)) matches Some(part)
            && part <= all,
    decreases digits.len() - n,
{
    if n == digits.len() {
        assert(digits.take(n) == digits);
    } else {
        assert(digits.take(n + 1).drop_last() == digits.take(n));
        lemma_prefix_decides(digits, n + 1);
    }
}

/// Parses a compositor address.
pub fn parse_address(address: &str) -> (parsed: Option<u64>)
    ensures
        parsed == address_of(address@),
{
    let chars = chars_of(address);
    let ghost text = address@;
    let mut start: usize = 0;
    assert(text.skip(0) == text);
    while start < chars.len() && chars.len() - start >= 2 && chars[start] == '0' && chars[start + 1]
        == 'x'
        invariant
            chars@ == text,
            start <= chars.len(),
            without_prefixes(text) == without_prefixes(text.skip(start as int)),
        decreases chars.len() - start,
    {
        assert(text.skip(start as int).skip(2) == text.skip(start + 2));
        start = start + 2;
    }
    assert(without_prefixes(text) == text.skip(start as int));
    if start < chars.len() && chars[start] == '+' {
        assert(text.skip(start as int).skip(1) == text.skip(start + 1));
        start = start + 1;
    }
    let ghost digits = text.skip(start as int);
    assert(digits == without_plus(without_prefixes(text)));
    if start == chars.len() {
        return None;
    }
    let mut value: u64 = 0;
    let mut at: usize = start;
    while at < chars.len()
        invariant
            text == address@,
            chars@ == text,
            start <= at <= chars.len(),
            start < chars.len(),
            digits == text.skip(start as int),
            digits == without_plus(without_prefixes(text)),
            digits_value(digits.take(at - start)) == Some(value as nat),
        decreases chars.len() - at,
    {
        let ghost read = digits.take(at - start + 1);
        assert(read.drop_last() == digits.take(at - start));
        assert(read.last() == text[at as int]);
        proof {
            lemma_prefix_decides(digits, at - start + 1);
        }
        match digit_of(chars[at]) {
            None => {
                return None;
            },
            Some(digit) => {
                if value > (u64::MAX - digit) / 16 {
                    return None;
                }
                value = value * 16 + digit;
            },
        }
        at = at + 1;
    }
    assert(digits.take(at - start) == digits);
    Some(value)
}

proof fn lemma_hex_digit_value(value: nat)
    requires
        value < 16,
    ensures
        digit_value(hex_digit(value)) == Some(value),
{
}

proof fn lemma_hex_text_value(value: nat)
    ensures
        hex_text(value).len() > 0,
        digits_value(hex_text(value)) == Some(value),
        forall|i: int|
            0 <= i < hex_text(value).len() ==> digit_value(#[trigger] hex_text(value)[i]) is Some,
    decreases value,
{
    lemma_hex_digit_value(value % 16);
    if value < 16 {
        assert(hex_text(value).drop_last() == Seq::<char>::empty());
        reveal_with_fuel(digits_value, 2);
    } else {
        lemma_hex_text_value(value / 16);
        assert(hex_text(value).drop_last() == hex_text(value / 16));
    }
}

/// Reading an address back from its hexadecimal text gives the address, with
/// and without the `0x` prefix.
pub proof fn law_address_text_round_trips(address: u64)
    ensures
        address_of(hex_text(address as nat)) == Some(address),
        address_of(seq!['0', 'x'] + hex_text(address as nat)) == Some(address),
{
    let digits = hex_text(address as nat);
    lemma_hex_text_value(address as nat);
    assert(digit_value(digits[0]) is Some);
    if digits.len() >= 2 {
        assert(digit_value(digits[1]) is Some);
    }
    assert(without_prefixes(digits) == digits);
    assert(without_plus(digits) == digits);
    let text = seq!['0', 'x'] + digits;
    assert(text.skip(2) == digits);
    assert(without_prefixes(text) == without_prefixes(digits));
}

} // verus!

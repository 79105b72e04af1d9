//! What a text has to be to denote an address, and which one it denotes.
use vstd::prelude::*;

use crate::address::{address_of, digit_value, digits_value, without_plus, without_prefixes};

verus! {

/// Whether a character is a hexadecimal digit of either case with this value.
pub open spec fn stands_for(c: char, value: int) -> bool {
    ||| '0' <= c <= '9' && value == c as int - '0' as int
    ||| 'a' <= c <= 'f' && value == c as int - 'a' as int + 10
    ||| 'A' <= c <= 'F' && value == c as int - 'A' as int + 10
}

/// Whether a character is a hexadecimal digit of either case.
pub open spec fn is_digit(c: char) -> bool {
    ('0' <= c <= '9') || ('a' <= c <= 'f') || ('A' <= c <= 'F')
}

/// A single digit denotes its value.
pub proof fn law_single_digits_denote_their_value(c: char, value: int)
    requires
        stands_for(c, value),
    ensures
        address_of(seq![c]) == Some(value as u64),
        0 <= value < 16,
{
    let text = seq![c];
    assert(text.drop_last() == Seq::<char>::empty());
    reveal_with_fuel(digits_value, 2);
}

/// One more digit multiplies the address by sixteen and adds the digit; a text
/// whose value does not fit into sixty-four bits denotes nothing.
pub proof fn law_each_digit_counts(text: Seq<char>, address: u64, c: char, value: int)
    requires
        address_of(text) == Some(address),
        stands_for(c, value),
    ensures
        address_of(text.push(c)) == (if address * 16 + value <= u64::MAX {
            Some((address * 16 + value) as u64)
        } else {
            None
        }),
{
    lemma_push_keeps_the_front(text, c);
    let digits = without_plus(without_prefixes(text));
    assert(digits.push(c).drop_last() == digits);
}

proof fn lemma_push_keeps_the_front(text: Seq<char>, c: char)
    requires
        without_plus(without_prefixes(text)).len() > 0,
        c != 'x',
    ensures
        without_plus(without_prefixes(text.push(c))) == without_plus(without_prefixes(text)).push(c),
    decreases text.len(),
{
    let longer = text.push(c);
    if text.len() >= 2 && text[0] == '0' && text[1] == 'x' {
        assert(longer.skip(2) == text.skip(2).push(c));
        lemma_push_keeps_the_front(text.skip(2), c);
    } else {
        assert(without_prefixes(longer) == longer);
        if text.len() > 0 && text[0] == '+' {
            assert(longer.skip(1) == text.skip(1).push(c));
        }
    }
}

/// A `0x` in front changes nothing, whatever follows.
pub proof fn law_prefixes_do_not_count(text: Seq<char>)
    ensures
        address_of(seq!['0', 'x'] + text) == address_of(text),
{
    assert((seq!['0', 'x'] + text).skip(2) == text);
}

/// One plus sign in front of the digits changes nothing.
pub proof fn law_one_plus_sign_does_not_count(text: Seq<char>)
    requires
        text.len() > 0,
        text[0] != '+',
        !(text.len() >= 2 && text[0] == '0' && text[1] == 'x'),
    ensures
        address_of(seq!['+'] + text) == address_of(text),
{
    let signed = seq!['+'] + text;
    assert(signed.skip(1) == text);
    assert(without_prefixes(signed) == signed);
    assert(without_prefixes(text) == text);
}

/// A text without a `0x` in front denotes an address only if it is digits to the
/// end, at least one of them, after at most one plus sign.
pub proof fn law_only_digits_denote(text: Seq<char>)
    requires
        !(text.len() >= 2 && text[0] == '0' && text[1] == 'x'),
    ensures
        address_of(text) is Some ==> {
            &&& text.len() > 0
            &&& is_digit(text.last())
            &&& is_digit(text[0]) || (text[0] == '+' && text.len() > 1)
            &&& forall|i: int| 1 <= i < text.len() ==> is_digit(#[trigger] text[i])
        },
{
    if address_of(text) is Some {
        assert(without_prefixes(text) == text);
        let digits = without_plus(text);
        lemma_digits_are_digits(digits);
        if text[0] == '+' {
            assert forall|i: int| 1 <= i < text.len() implies is_digit(#[trigger] text[i]) by {
                assert(digits[i - 1] == text[i]);
            }
        } else {
            assert(digits == text);
        }
    }
}

proof fn lemma_digits_are_digits(digits: Seq<char>)
    requires
        digits_value(digits) is Some,
    ensures
        forall|i: int| 0 <= i < digits.len() ==> is_digit(#[trigger] digits[i]),
    decreases digits.len(),
{
    if digits.len() > 0 {
        lemma_digits_are_digits(digits.drop_last());
        assert(digit_value(digits.last()) is Some);
        assert forall|i: int| 0 <= i < digits.len() implies is_digit(#[trigger] digits[i]) by {
            if i < digits.len() - 1 {
                assert(digits.drop_last()[i] == digits[i]);
            }
        }
    }
}

/// Once a text of digits is too large, more digits do not make it fit again, and
/// neither does anything else behind it.
pub proof fn law_what_does_not_denote_stays_so(text: Seq<char>, c: char)
    requires
        text.len() > 0,
        address_of(text) is None,
        forall|i: int| 0 <= i < text.len() ==> is_digit(#[trigger] text[i]),
        c != 'x' || text.len() > 1,
    ensures
        address_of(text.push(c)) is None,
{
    lemma_all_digits_have_a_value(text);
    assert(text[0] != '+');
    if text.len() > 1 {
        assert(text[1] != 'x');
    }
    assert(without_prefixes(text) == text);
    assert(without_plus(text) == text);
    let longer = text.push(c);
    assert(without_prefixes(longer) == longer);
    assert(without_plus(longer) == longer);
    assert(longer.drop_last() == text);
}

proof fn lemma_all_digits_have_a_value(digits: Seq<char>)
    requires
        forall|i: int| 0 <= i < digits.len() ==> is_digit(#[trigger] digits[i]),
    ensures
        digits_value(digits) is Some,
    decreases digits.len(),
{
    if digits.len() > 0 {
        assert forall|i: int| 0 <= i < digits.drop_last().len() implies is_digit(
            #[trigger] digits.drop_last()[i],
        ) by {
            assert(digits[i] == digits.drop_last()[i]);
        }
        lemma_all_digits_have_a_value(digits.drop_last());
        assert(is_digit(digits[digits.len() - 1]));
    }
}

} // verus!

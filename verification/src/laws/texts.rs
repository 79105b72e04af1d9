//! What white space, case and number notation come to, character by character.
use vstd::arithmetic::div_mod::lemma_div_denominator;
use vstd::arithmetic::power::{lemma_pow0, lemma_pow_positive, pow};
use vstd::prelude::*;

use crate::text::{
    ascii_lower, decimal_text, hex_digit, hex_text, is_blank, is_white_space, lower_contains,
    lower_matches_at, signed_text, trim_end, trim_start, trimmed,
};

verus! {

/// White space by code point: tab to carriage return, space, next line, no-break
/// space, ogham space mark, en quad to hair space, line and paragraph separator,
/// narrow no-break space, medium mathematical space and ideographic space.
pub proof fn law_white_space_by_code_point(c: char)
    ensures
        is_white_space(c) <==> {
            let code = c as int;
            ||| 9 <= code <= 13
            ||| code == 32
            ||| code == 133
            ||| code == 160
            ||| code == 5760
            ||| 8192 <= code <= 8202
            ||| code == 8232
            ||| code == 8233
            ||| code == 8239
            ||| code == 8287
            ||| code == 12288
        },
{
}

/// Whether a piece of a text is what is left when white space is taken off both
/// ends: it is bounded by other characters, and only white space lies outside.
pub open spec fn is_core(text: Seq<char>, start: int, end: int) -> bool {
    &&& 0 <= start <= end <= text.len()
    &&& forall|i: int| 0 <= i < start ==> is_white_space(#[trigger] text[i])
    &&& forall|i: int| end <= i < text.len() ==> is_white_space(#[trigger] text[i])
    &&& start < end ==> !is_white_space(text[start]) && !is_white_space(text[end - 1])
}

/// Trimming leaves the piece of the text between white space at both ends.
pub proof fn law_trimming_leaves_the_core(text: Seq<char>)
    ensures
        exists|start: int, end: int| #[trigger]
            is_core(text, start, end) && trimmed(text) == text.subrange(start, end),
        trimmed(text).len() == 0 <==> forall|i: int|
            0 <= i < text.len() ==> is_white_space(#[trigger] text[i]),
        trimmed(text).len() == 0 <==> is_blank(text),
{
    let start = lemma_trim_start(text);
    let tail = text.subrange(start, text.len() as int);
    let kept = lemma_trim_end(tail);
    let end = start + kept;
    assert(tail.subrange(0, kept) == text.subrange(start, end));
    assert forall|i: int| end <= i < text.len() implies is_white_space(#[trigger] text[i]) by {
        assert(tail[i - start] == text[i]);
    }
    if start < end {
        assert(tail[0] == text[start]);
        assert(tail[kept - 1] == text[end - 1]);
        assert(tail.len() > 0 && !is_white_space(tail[0]));
    }
    assert(is_core(text, start, end));
    if trimmed(text).len() == 0 {
        assert forall|i: int| 0 <= i < text.len() implies is_white_space(#[trigger] text[i]) by {}
    } else {
        assert(!is_white_space(text[start]));
    }
}

proof fn lemma_trim_start(text: Seq<char>) -> (start: int)
    ensures
        0 <= start <= text.len(),
        trim_start(text) == text.subrange(start, text.len() as int),
        forall|i: int| 0 <= i < start ==> is_white_space(#[trigger] text[i]),
        start < text.len() ==> !is_white_space(text[start]),
    decreases text.len(),
{
    if text.len() > 0 && is_white_space(text.first()) {
        let rest = text.drop_first();
        let start = lemma_trim_start(rest);
        assert(rest.subrange(start, rest.len() as int) == text.subrange(
            start + 1,
            text.len() as int,
        ));
        assert forall|i: int| 0 <= i < start + 1 implies is_white_space(#[trigger] text[i]) by {
            if i > 0 {
                assert(rest[i - 1] == text[i]);
            }
        }
        start + 1
    } else {
        assert(text.subrange(0, text.len() as int) == text);
        0
    }
}

proof fn lemma_trim_end(text: Seq<char>) -> (end: int)
    ensures
        0 <= end <= text.len(),
        trim_end(text) == text.subrange(0, end),
        forall|i: int| end <= i < text.len() ==> is_white_space(#[trigger] text[i]),
        end > 0 ==> !is_white_space(text[end - 1]),
    decreases text.len(),
{
    if text.len() > 0 && is_white_space(text.last()) {
        let rest = text.drop_last();
        let end = lemma_trim_end(rest);
        assert(rest.subrange(0, end) == text.subrange(0, end));
        assert forall|i: int| end <= i < text.len() implies is_white_space(#[trigger] text[i]) by {
            if i < text.len() - 1 {
                assert(rest[i] == text[i]);
            }
        }
        end
    } else {
        assert(text.subrange(0, text.len() as int) == text);
        text.len() as int
    }
}

/// Whether two letters are the same but for the case of the first one.
pub open spec fn same_letter(c: char, small: char) -> bool {
    c == small || (c as int + 32 == small as int && 'a' <= small <= 'z')
}

/// A word in small letters occurs in a text in any case where each of its letters
/// stands there, small or capital, one after the other.
pub proof fn law_words_are_found_in_any_case(text: Seq<char>, word: Seq<char>)
    requires
        forall|j: int| 0 <= j < word.len() ==> 'a' <= #[trigger] word[j] <= 'z',
    ensures
        lower_contains(text, word) <==> exists|i: int|
            0 <= i <= text.len() - word.len() && spells(text, word, i),
{
    if lower_contains(text, word) {
        let i = choose|i: int| lower_matches_at(text, word, i);
        assert forall|j: int| 0 <= j < word.len() implies same_letter(
            text[i + j],
            #[trigger] word[j],
        ) by {
            assert(ascii_lower(text[i + j]) == word[j]);
        }
        assert(spells(text, word, i));
    }
    if exists|i: int| 0 <= i <= text.len() - word.len() && spells(text, word, i) {
        let i = choose|i: int| 0 <= i <= text.len() - word.len() && spells(text, word, i);
        assert forall|j: int| 0 <= j < word.len() implies ascii_lower(#[trigger] text[i + j])
            == word[j] by {
            assert(same_letter(text[i + j], word[j]));
            assert('a' <= word[j] <= 'z');
        }
        assert(lower_matches_at(text, word, i));
    }
}

/// Whether a text spells a word from a place on, in any case.
pub open spec fn spells(text: Seq<char>, word: Seq<char>, at: int) -> bool {
    forall|j: int| 0 <= j < word.len() ==> same_letter(text[at + j], #[trigger] word[j])
}

/// In hexadecimal, the digit `k` places from the right stands for that many
/// sixteenth parts of the number, in small letters; the number fits into the
/// digits, and no zero is in front.
pub proof fn law_hexadecimal_by_places(value: nat, k: int)
    requires
        0 <= k < hex_text(value).len(),
    ensures
        ({
            let c = hex_text(value)[hex_text(value).len() - 1 - k];
            let digit = (value as int / pow(16, k as nat)) % 16;
            ||| '0' <= c <= '9' && digit == c as int - '0' as int
            ||| 'a' <= c <= 'f' && digit == c as int - 'a' as int + 10
        }),
        value < pow(16, hex_text(value).len()),
        hex_text(value).len() > 1 ==> hex_text(value)[0] != '0',
    decreases value,
{
    lemma_pow0(16);
    lemma_pow_positive(16, hex_text(value).len());
    if value < 16 {
        assert(pow(16, 1) == 16) by {
            reveal(pow);
            lemma_pow0(16);
        }
    } else {
        let shorter = hex_text(value / 16);
        let up: int = if k == 0 {
            0
        } else {
            k - 1
        };
        law_hexadecimal_by_places(value / 16, up);
        assert(pow(16, hex_text(value).len()) == 16 * pow(16, shorter.len())) by {
            reveal(pow);
        }
        if k > 0 {
            assert(pow(16, k as nat) == 16 * pow(16, (k - 1) as nat)) by {
                reveal(pow);
            }
            lemma_pow_positive(16, (k - 1) as nat);
            lemma_div_denominator(value as int, 16, pow(16, (k - 1) as nat));
            assert(hex_text(value)[hex_text(value).len() - 1 - k] == shorter[shorter.len() - k]);
        }
        if shorter.len() == 1 {
            assert(value / 16 < pow(16, 1));
            assert(pow(16, 1) == 16) by {
                reveal(pow);
                lemma_pow0(16);
            }
            assert(shorter[0] == hex_digit(value / 16));
        }
        assert(hex_text(value)[0] == shorter[0]);
    }
}

/// In decimal, the digit `k` places from the right stands for that many tenth
/// parts of the number; the number fits into the digits, and no zero is in front.
pub proof fn law_decimal_by_places(value: nat, k: int)
    requires
        0 <= k < decimal_text(value).len(),
    ensures
        ({
            let c = decimal_text(value)[decimal_text(value).len() - 1 - k];
            '0' <= c <= '9' && (value as int / pow(10, k as nat)) % 10 == c as int - '0' as int
        }),
        value < pow(10, decimal_text(value).len()),
        decimal_text(value).len() > 1 ==> decimal_text(value)[0] != '0',
    decreases value,
{
    lemma_pow0(10);
    lemma_pow_positive(10, decimal_text(value).len());
    if value < 10 {
        assert(pow(10, 1) == 10) by {
            reveal(pow);
            lemma_pow0(10);
        }
    } else {
        let shorter = decimal_text(value / 10);
        let up: int = if k == 0 {
            0
        } else {
            k - 1
        };
        law_decimal_by_places(value / 10, up);
        assert(pow(10, decimal_text(value).len()) == 10 * pow(10, shorter.len())) by {
            reveal(pow);
        }
        if k > 0 {
            assert(pow(10, k as nat) == 10 * pow(10, (k - 1) as nat)) by {
                reveal(pow);
            }
            lemma_pow_positive(10, (k - 1) as nat);
            lemma_div_denominator(value as int, 10, pow(10, (k - 1) as nat));
            assert(decimal_text(value)[decimal_text(value).len() - 1 - k]
                == shorter[shorter.len() - k]);
        }
        if shorter.len() == 1 {
            assert(value / 10 < pow(10, 1));
            assert(pow(10, 1) == 10) by {
                reveal(pow);
                lemma_pow0(10);
            }
            assert(shorter[0] == hex_digit(value / 10));
        }
        assert(decimal_text(value)[0] == shorter[0]);
    }
}

/// A signed number is written as its size, with a minus sign in front where it is
/// negative, and only then.
pub proof fn law_signs_stand_in_front(value: int)
    ensures
        signed_text(value).len() > 0,
        signed_text(value)[0] == '-' <==> value < 0,
        value < 0 ==> signed_text(value).skip(1) == decimal_text((-value) as nat),
        value >= 0 ==> signed_text(value) == decimal_text(value as nat),
{
    let size: nat = if value < 0 {
        (-value) as nat
    } else {
        value as nat
    };
    assert(decimal_text(size).len() > 0);
    law_decimal_by_places(size, decimal_text(size).len() - 1);
    assert(signed_text(value).skip(1) == decimal_text(size) || value >= 0);
}

} // verus!

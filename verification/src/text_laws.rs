//! What texts and records are for: numbers that are written read back, settings mean
//! what they say, and records lie in memory as they are laid out.

use crate::layout::{
    end_of_fields, field_offset, fields_wf, lemma_bounds, lemma_prefix_wf, record_align,
    record_size, Field,
};
use crate::parse::{
    all_digits, as_chars, bytes_set, is_digit, is_white, lemma_decimal_is_digits, lower, number,
    parsed_i32, parsed_u64, same_letters, switched_on, switched_on_exactly, trimmed,
};
use crate::text::{decimal, fitting, hexadecimal, signed_decimal};
use vstd::prelude::*;

verus! {

// ─── Writing numbers ────────────────────────────────────────────────────────

/// The value of a hexadecimal digit.
pub open spec fn hex_value(c: u8) -> int {
    if 48 <= c <= 57 {
        c - 48
    } else if 97 <= c <= 102 {
        c - 97 + 10
    } else {
        -1
    }
}

/// The number that hexadecimal digits stand for.
pub open spec fn hex_number(s: Seq<u8>) -> int
    decreases s.len(),
{
    if s.len() == 0 {
        0
    } else {
        hex_number(s.drop_last()) * 16 + hex_value(s.last())
    }
}

/// Hexadecimal digits read back: they are digits and small letters, stand for the
/// number, and there is no zero too many in front.
pub proof fn law_hexadecimal_reads_back(n: nat)
    ensures
        hex_number(hexadecimal(n)) == n,
        hexadecimal(n).len() > 0,
        forall|i: int| 0 <= i < hexadecimal(n).len() ==> hex_value(#[trigger] hexadecimal(n)[i]) >= 0,
        n > 0 ==> hexadecimal(n)[0] != 48,
    decreases n,
{
    let s = hexadecimal(n);
    if n < 16 {
        assert(s.drop_last() =~= Seq::<u8>::empty());
        assert(hex_number(s.drop_last()) == 0);
    } else {
        law_hexadecimal_reads_back(n / 16);
        assert(s.drop_last() =~= hexadecimal(n / 16));
        assert forall|i: int| 0 <= i < s.len() implies hex_value(#[trigger] s[i]) >= 0 by {
            if i < s.len() - 1 {
                assert(s[i] == hexadecimal(n / 16)[i]);
            }
        }
        assert(s[0] == hexadecimal(n / 16)[0]);
    }
}

/// A number below zero has a sign and then its digits; any other has its digits alone.
pub proof fn law_signs_are_written(n: int)
    ensures
        n < 0 ==> signed_decimal(n)[0] == 45 && number(
            as_chars(signed_decimal(n)).skip(1),
        ) == -n,
        n >= 0 ==> number(as_chars(signed_decimal(n))) == n && all_digits(
            as_chars(signed_decimal(n)),
        ),
{
    if n < 0 {
        lemma_decimal_is_digits((-n) as nat);
        assert(as_chars(signed_decimal(n)).skip(1) =~= as_chars(decimal((-n) as nat)));
    } else {
        lemma_decimal_is_digits(n as nat);
    }
}

/// What is written of a text is its beginning, as much as there is room for.
pub proof fn law_text_is_cut_at_its_end(s: Seq<u8>, room: int)
    requires
        0 <= room,
    ensures
        fitting(s, room).len() <= room,
        fitting(s, room).len() == s.len() || fitting(s, room).len() == room,
        forall|i: int| 0 <= i < fitting(s, room).len() ==> #[trigger] fitting(s, room)[i] == s[i],
{
}

// ─── Reading numbers ────────────────────────────────────────────────────────

/// A whole number reads back with its sign, within the numbers that there are.
pub proof fn law_signed_numbers_read_back(n: i32)
    ensures
        parsed_i32(as_chars(signed_decimal(n as int))) == Some(n),
{
    let s = as_chars(signed_decimal(n as int));
    if n < 0 {
        lemma_decimal_is_digits((-n) as nat);
        assert(s.skip(1) =~= as_chars(decimal((-n) as nat)));
    } else {
        lemma_decimal_is_digits(n as nat);
        assert(is_digit(s[0]));
        assert(crate::parse::without_plus(s) == s);
    }
}

/// A text that holds anything but digits behind its first character is no number, nor
/// is one without digits.
pub proof fn law_other_texts_are_no_numbers(s: Seq<char>, i: int)
    requires
        0 < i < s.len(),
        !is_digit(s[i]),
    ensures
        parsed_u64(s) is None,
        parsed_i32(s) is None,
        parsed_u64(Seq::<char>::empty()) is None,
{
    let t = s.skip(1);
    assert(t[i - 1] == s[i]);
}

/// A number that is too large is none.
pub proof fn law_too_large_numbers_are_none(s: Seq<char>)
    requires
        number(s) > u64::MAX,
        all_digits(s),
    ensures
        parsed_u64(s) is None,
{
    assert(is_digit(s[0]));
    assert(crate::parse::without_plus(s) == s);
}

/// Text without white space at its ends has none there, and is all that is between.
pub proof fn law_white_space_at_the_ends_goes(s: Seq<char>)
    ensures
        trimmed(s).len() > 0 ==> !is_white(trimmed(s)[0]) && !is_white(trimmed(s).last()),
        trimmed(trimmed(s)) == trimmed(s),
        trimmed(s).len() <= s.len(),
        exists|a: int, b: int| 0 <= a <= b <= s.len() && trimmed(s) == #[trigger] s.subrange(a, b),
        s.len() > 0 && !is_white(s[0]) && !is_white(s.last()) ==> trimmed(s) == s,
    decreases s.len(),
{
    if s.len() == 0 {
        assert(s =~= s.subrange(0, 0));
    } else if is_white(s[0]) {
        let t = s.skip(1);
        law_white_space_at_the_ends_goes(t);
        let (a, b) = choose|a: int, b: int|
            0 <= a <= b <= t.len() && trimmed(t) == #[trigger] t.subrange(a, b);
        assert(t.subrange(a, b) =~= s.subrange(a + 1, b + 1));
    } else if is_white(s.last()) {
        let t = s.drop_last();
        law_white_space_at_the_ends_goes(t);
        let (a, b) = choose|a: int, b: int|
            0 <= a <= b <= t.len() && trimmed(t) == #[trigger] t.subrange(a, b);
        assert(t.subrange(a, b) =~= s.subrange(a, b));
    } else {
        assert(s =~= s.subrange(0, s.len() as int));
    }
}

/// White space around a setting does not count, neither for a switch nor for a number.
pub proof fn law_settings_ignore_white_space(s: Seq<char>, c: char)
    requires
        is_white(c),
    ensures
        switched_on(seq![c] + s) == switched_on(s),
        bytes_set(seq![c] + s) == bytes_set(s),
{
    assert((seq![c] + s).skip(1) =~= s);
}

/// A switch is read alike in small and in large letters, and an empty one is off.
pub proof fn law_switches_ignore_case(s: Seq<char>, t: Seq<char>)
    requires
        same_letters(s, t),
    ensures
        switched_on_exactly(s) == switched_on_exactly(t),
        !switched_on_exactly(Seq::<char>::empty()),
        !switched_on(Seq::<char>::empty()),
{
    lemma_same_letters(s, t, "0"@);
    lemma_same_letters(s, t, "false"@);
    lemma_same_letters(s, t, "no"@);
}

/// Texts with the same letters have the same letters as a third, or neither has.
proof fn lemma_same_letters(s: Seq<char>, t: Seq<char>, word: Seq<char>)
    requires
        same_letters(s, t),
    ensures
        same_letters(s, word) == same_letters(t, word),
{
    assert forall|i: int| 0 <= i < s.len() implies lower(#[trigger] s[i]) == lower(t[i]) by {}
    if same_letters(s, word) {
        assert forall|i: int| 0 <= i < t.len() implies lower(#[trigger] t[i]) == lower(word[i]) by {
            assert(lower(s[i]) == lower(word[i]));
        }
    }
    if same_letters(t, word) {
        assert forall|i: int| 0 <= i < s.len() implies lower(#[trigger] s[i]) == lower(word[i]) by {
            assert(lower(t[i]) == lower(word[i]));
        }
    }
}

// ─── Records ────────────────────────────────────────────────────────────────

/// A record is aligned as its strictest field is.
pub proof fn law_record_is_aligned_for_every_field(fields: Seq<Field>, i: int)
    requires
        fields_wf(fields),
        0 <= i < fields.len(),
    ensures
        record_align(fields) >= fields[i].align,
        exists|j: int|
            0 <= j < fields.len() && record_align(fields) == (#[trigger] fields[j]).align,
    decreases fields.len(),
{
    let init = fields.drop_last();
    let last = fields.len() - 1;
    assert forall|k: int| 0 <= k < init.len() implies (#[trigger] init[k]).wf() by {
        assert(init[k] == fields[k]);
    }
    assert(fields[last].wf());
    if init.len() > 0 {
        let k = if i < last {
            i
        } else {
            0
        };
        law_record_is_aligned_for_every_field(init, k);
        let j = choose|j: int|
            0 <= j < init.len() && record_align(init) == (#[trigger] init[j]).align;
        assert(fields[j].align == init[j].align);
    }
    assert(record_align(fields) == fields[last].align || init.len() > 0);
}

/// A field starts at the first place behind the fields before it that suits it, and a
/// record ends at the first place behind its fields that suits it: nothing is wasted.
pub proof fn law_fields_lie_as_close_as_they_can(fields: Seq<Field>, i: int)
    requires
        fields_wf(fields),
        0 <= i < fields.len(),
    ensures
        field_offset(fields, i) % fields[i].align as int == 0,
        end_of_fields(fields.take(i)) <= field_offset(fields, i) < end_of_fields(fields.take(i))
            + fields[i].align,
        record_size(fields) % record_align(fields) == 0,
        end_of_fields(fields) <= record_size(fields) < end_of_fields(fields) + record_align(fields),
        field_offset(fields, 0) == 0,
{
    lemma_prefix_wf(fields, i);
    lemma_bounds(fields.take(i));
    crate::num::lemma_round_up(end_of_fields(fields.take(i)), fields[i].align as int);
    lemma_bounds(fields);
    crate::num::lemma_round_up(end_of_fields(fields), record_align(fields));
    assert(fields.take(0) =~= Seq::<Field>::empty());
    assert(fields[0].wf());
    crate::num::lemma_round_up(0, fields[0].align as int);
    assert(0int % fields[0].align as int == 0) by {
        vstd::arithmetic::div_mod::lemma_small_mod(0, fields[0].align as nat);
    }
}

} // verus!

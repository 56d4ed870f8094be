//! What holds of every text that is trimmed, taken apart or read as a number.

use vstd::prelude::*;

use crate::number::{
    all_digits, digits_value, is_digit, parsed_i64, signed, unsigned_part, written_value,
};
use crate::text::{
    after_last, ascii_lower, ascii_lowercase, ascii_upper, ascii_uppercase, lemma_trimmed_ends,
    trimmed, trimmed_end, trimmed_start, unicode_white_space, white_space,
};

verus! {

// ---------------------------------------------------------------------------------------------
// Case

/// Lower case in ASCII moves the capital letters and nothing else, each by the same distance, and
/// upper case moves the small letters back.
pub proof fn law_ascii_case_moves_letters_only(c: char)
    ensures
        ascii_lower(c) as u32 == if 65 <= c as u32 <= 90 {
            c as u32 + 32
        } else {
            c as int
        },
        ascii_upper(c) as u32 == if 97 <= c as u32 <= 122 {
            c as u32 - 32
        } else {
            c as int
        },
{
}

/// Case in ASCII is changed character by character.
pub proof fn law_ascii_case_keeps_places(s: Seq<char>, i: int)
    requires
        0 <= i < s.len(),
    ensures
        ascii_lowercase(s).len() == s.len(),
        ascii_uppercase(s).len() == s.len(),
        ascii_lowercase(s)[i] == ascii_lower(s[i]),
        ascii_uppercase(s)[i] == ascii_upper(s[i]),
{
}

// ---------------------------------------------------------------------------------------------
// Trimming

/// Whether a character is blank: a space, one of the control characters from tab to carriage
/// return, or white space outside ASCII.
pub open spec fn is_blank(c: char) -> bool {
    c as u32 == 32 || 9 <= c as u32 <= 13 || c as u32 > 127 && unicode_white_space(c)
}

/// Whether the part of `s` from `from` up to `to` is what is left of it without blanks at its ends.
pub open spec fn is_middle(s: Seq<char>, from: int, to: int) -> bool {
    &&& 0 <= from <= to <= s.len()
    &&& forall|k: int| 0 <= k < from ==> is_blank(#[trigger] s[k])
    &&& forall|k: int| to <= k < s.len() ==> is_blank(#[trigger] s[k])
    &&& from < to ==> !is_blank(s[from]) && !is_blank(s[to - 1])
}

/// Trimming leaves the middle of a text: it takes away blanks at the two ends, all of them, and
/// nothing else.
pub proof fn law_trimming_leaves_the_middle(s: Seq<char>)
    ensures
        exists|from: int, to: int| #[trigger]
            is_middle(s, from, to) && trimmed(s) == s.subrange(from, to),
{
    let from = lemma_start_is_a_suffix(s);
    let rest = trimmed_start(s);
    let n = lemma_end_is_a_prefix(rest);
    lemma_trimmed_ends(s);
    let to = from + n;
    assert(trimmed(s) =~= s.subrange(from, to));
    assert forall|k: int| to <= k < s.len() implies is_blank(#[trigger] s[k]) by {
        assert(rest[k - from] == s[k]);
    }
    assert(from < to ==> trimmed(s)[0] == s[from] && trimmed(s).last() == s[to - 1]);
    assert(is_middle(s, from, to));
}

proof fn lemma_start_is_a_suffix(s: Seq<char>) -> (from: int)
    ensures
        0 <= from <= s.len(),
        trimmed_start(s) == s.skip(from),
        forall|k: int| 0 <= k < from ==> is_blank(#[trigger] s[k]),
    decreases s.len(),
{
    if s.len() > 0 && white_space(s[0]) {
        let rest = s.skip(1);
        let from = lemma_start_is_a_suffix(rest);
        assert(rest.skip(from) =~= s.skip(from + 1));
        assert forall|k: int| 0 <= k < from + 1 implies is_blank(#[trigger] s[k]) by {
            if k > 0 {
                assert(rest[k - 1] == s[k]);
            }
        }
        from + 1
    } else {
        assert(s.skip(0) =~= s);
        0
    }
}

proof fn lemma_end_is_a_prefix(s: Seq<char>) -> (n: int)
    ensures
        0 <= n <= s.len(),
        trimmed_end(s) == s.take(n),
        forall|k: int| n <= k < s.len() ==> is_blank(#[trigger] s[k]),
    decreases s.len(),
{
    if s.len() > 0 && white_space(s.last()) {
        let rest = s.drop_last();
        let n = lemma_end_is_a_prefix(rest);
        assert(rest.take(n) =~= s.take(n));
        assert forall|k: int| n <= k < s.len() implies is_blank(#[trigger] s[k]) by {
            if k < rest.len() {
                assert(rest[k] == s[k]);
            }
        }
        n
    } else {
        assert(s.take(s.len() as int) =~= s);
        s.len() as int
    }
}

// ---------------------------------------------------------------------------------------------
// Separators

/// What follows the last separator is the end of the text that holds none, and a separator stands
/// before it; all of the text where it holds no separator.
pub proof fn law_part_after_the_last_separator(s: Seq<char>, sep: char)
    ensures
        ({
            let end = after_last(s, sep);
            &&& end.len() <= s.len()
            &&& end == s.skip(s.len() - end.len())
            &&& !end.contains(sep)
            &&& end.len() < s.len() ==> s[s.len() - end.len() - 1] == sep
        }),
    decreases s.len(),
{
    let end = after_last(s, sep);
    if s.len() == 0 || s.last() == sep {
        assert(s.skip(s.len() - end.len()) =~= end);
    } else {
        let front = s.drop_last();
        law_part_after_the_last_separator(front, sep);
        let before = after_last(front, sep);
        assert(s.skip(s.len() - end.len()) =~= end) by {
            assert forall|k: int| 0 <= k < end.len() implies s.skip(s.len() - end.len())[k]
                == end[k] by {
                if k < before.len() {
                    assert(front.skip(front.len() - before.len())[k] == before[k]);
                }
            }
        }
        assert(!end.contains(sep)) by {
            if end.contains(sep) {
                let k = choose|k: int| 0 <= k < end.len() && end[k] == sep;
                if k < before.len() {
                    assert(before[k] == sep);
                }
            }
        }
    }
}

// ---------------------------------------------------------------------------------------------
// Numbers

/// Whether `s` is a sign or nothing, followed by digits, at least one.
pub open spec fn is_number_text(s: Seq<char>) -> bool {
    let from = if s.len() > 0 && (s[0] == '-' || s[0] == '+') {
        1int
    } else {
        0int
    };
    from < s.len() && forall|k: int| from <= k < s.len() ==> 48 <= (#[trigger] s[k]) as u32 <= 57
}

/// Nothing but digits behind an optional sign is a number.
pub proof fn law_only_digits_are_numbers(s: Seq<char>)
    ensures
        parsed_i64(s) is Some ==> is_number_text(s),
{
    if parsed_i64(s) is Some {
        let body = unsigned_part(s);
        let from = if signed(s) {
            1int
        } else {
            0int
        };
        assert forall|k: int| from <= k < s.len() implies 48 <= (#[trigger] s[k]) as u32 <= 57 by {
            assert(body[k - from] == s[k]);
            assert(is_digit(body[k - from]));
        }
    }
}

/// A single digit is the number it shows.
pub proof fn law_one_digit_is_its_number(c: char)
    requires
        48 <= c as u32 <= 57,
    ensures
        parsed_i64(seq![c]) == Some((c as u32 - 48) as i64),
{
    let s = seq![c];
    assert(s.drop_last() =~= Seq::<char>::empty());
    assert(digits_value(s.drop_last()) == 0);
    assert(unsigned_part(s) =~= s);
}

/// One more digit behind a number makes it ten times as large and adds the digit; it is no number
/// any more where that is out of range.
pub proof fn law_one_more_digit(s: Seq<char>, c: char)
    requires
        48 <= c as u32 <= 57,
        parsed_i64(s) is Some,
        s[0] != '-',
    ensures
        ({
            let v = 10 * (parsed_i64(s)->0) + (c as u32 - 48);
            parsed_i64(s.push(c)) == if v <= i64::MAX {
                Some(v as i64)
            } else {
                None
            }
        }),
{
    let t = s.push(c);
    let body = unsigned_part(s);
    assert(unsigned_part(t) =~= body.push(c));
    assert(body.push(c).drop_last() =~= body);
    assert(all_digits(body.push(c))) by {
        assert forall|k: int| 0 <= k < body.push(c).len() implies is_digit(
            #[trigger] body.push(c)[k],
        ) by {
            if k < body.len() {
                assert(is_digit(body[k]));
            }
        }
    }
    lemma_digits_are_not_negative(body);
}

proof fn lemma_digits_are_not_negative(s: Seq<char>)
    requires
        all_digits(s),
    ensures
        0 <= digits_value(s),
    decreases s.len(),
{
    if s.len() > 0 {
        let front = s.drop_last();
        assert forall|k: int| 0 <= k < front.len() implies is_digit(#[trigger] front[k]) by {
            assert(is_digit(s[k]));
        }
        lemma_digits_are_not_negative(front);
        assert(is_digit(s[s.len() - 1]));
    }
}

/// A plus before a number changes nothing, and a minus changes its sign.
pub proof fn law_signs(s: Seq<char>)
    requires
        s.len() > 0,
        48 <= s[0] as u32 <= 57,
    ensures
        parsed_i64(seq!['+'] + s) == parsed_i64(s),
        parsed_i64(s) matches Some(n) ==> parsed_i64(seq!['-'] + s) == Some((-n) as i64),
{
    assert(unsigned_part(seq!['+'] + s) =~= s);
    assert(unsigned_part(seq!['-'] + s) =~= s);
    assert(unsigned_part(s) =~= s);
    if written_value(s) is Some {
        lemma_digits_are_not_negative(s);
    }
}

/// A number that is out of range stays out of range with more digits behind it.
pub proof fn law_out_of_range_stays_out_of_range(s: Seq<char>, c: char)
    requires
        48 <= c as u32 <= 57,
        is_number_text(s),
        parsed_i64(s) is None,
    ensures
        parsed_i64(s.push(c)) is None,
{
    let t = s.push(c);
    let body = unsigned_part(s);
    let from = s.len() - body.len();
    assert forall|k: int| 0 <= k < body.len() implies is_digit(#[trigger] body[k]) by {
        assert(body[k] == s[from + k]);
    }
    assert(unsigned_part(t) =~= body.push(c));
    assert(body.push(c).drop_last() =~= body);
    lemma_digits_are_not_negative(body);
}

} // verus!

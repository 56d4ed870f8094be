//! Text: case mapping, trimming, comparing.

use vstd::prelude::*;
use vstd::string::*;

use crate::sequences::lemma_in_flatten;

verus! {

/// The characters of an optional text.
pub open spec fn characters(s: Option<String>) -> Option<Seq<char>> {
    match s {
        Some(x) => Some(x@),
        None => None,
    }
}

// ---------------------------------------------------------------------------------------------
// ASCII

/// Whether every character of `s` is ASCII.
pub open spec fn all_ascii(s: Seq<char>) -> bool {
    forall|i: int| 0 <= i < s.len() ==> (#[trigger] s[i]) as u32 <= 127
}

/// `c` with `A` to `Z` mapped to `a` to `z`.
pub open spec fn ascii_lower(c: char) -> char {
    if 'A' as u32 <= c as u32 <= 'Z' as u32 {
        ((c as u32 + 32) as u32) as char
    } else {
        c
    }
}

/// `c` with `a` to `z` mapped to `A` to `Z`.
pub open spec fn ascii_upper(c: char) -> char {
    if 'a' as u32 <= c as u32 <= 'z' as u32 {
        ((c as u32 - 32) as u32) as char
    } else {
        c
    }
}

/// Every character of `s` through `ascii_lower`.
pub open spec fn ascii_lowercase(s: Seq<char>) -> Seq<char> {
    Seq::new(s.len(), |i: int| ascii_lower(s[i]))
}

/// Every character of `s` through `ascii_upper`.
pub open spec fn ascii_uppercase(s: Seq<char>) -> Seq<char> {
    Seq::new(s.len(), |i: int| ascii_upper(s[i]))
}

// ---------------------------------------------------------------------------------------------
// Unicode, as std has it

/// The lower-case mapping that `char::to_lowercase` gives for a character that is not ASCII.
pub uninterp spec fn unicode_lowercase(c: char) -> Seq<char>;

/// Whether `str::to_lowercase` takes the capital sigma at position `i` of `s` for one that ends a
/// word.
pub uninterp spec fn ends_word(s: Seq<char>, i: int) -> bool;

/// What `str::to_uppercase` returns on text that is not all ASCII.
pub uninterp spec fn unicode_uppercase(s: Seq<char>) -> Seq<char>;

/// Whether `char::is_whitespace` holds of a character that is not ASCII.
pub uninterp spec fn unicode_white_space(c: char) -> bool;

/// The Greek capital sigma, the one letter whose lower case depends on where it stands.
pub const CAPITAL_SIGMA: char = '\u{3a3}';

/// What the character at position `i` of `s` becomes in lower case: itself or several characters.
pub open spec fn lowercase_at(s: Seq<char>, i: int) -> Seq<char> {
    if s[i] as u32 <= 127 {
        seq![ascii_lower(s[i])]
    } else if s[i] == CAPITAL_SIGMA {
        if ends_word(s, i) {
            seq!['\u{3c2}']
        } else {
            seq!['\u{3c3}']
        }
    } else {
        unicode_lowercase(s[i])
    }
}

/// `s` in lower case, character by character.
pub open spec fn lowercase(s: Seq<char>) -> Seq<char> {
    Seq::new(s.len(), |i: int| lowercase_at(s, i)).flatten()
}

/// `s` in upper case.
pub open spec fn uppercase(s: Seq<char>) -> Seq<char> {
    if all_ascii(s) {
        ascii_uppercase(s)
    } else {
        unicode_uppercase(s)
    }
}

/// Whether `c` is white space: of ASCII, the space and the characters from tab to carriage return.
pub open spec fn white_space(c: char) -> bool {
    if c as u32 <= 127 {
        c as u32 == 32 || 9 <= c as u32 <= 13
    } else {
        unicode_white_space(c)
    }
}

/// Calls `str::to_lowercase`, which maps one character after the other: of ASCII only the letters
/// `A` to `Z` change, the Greek capital sigma becomes a final sigma at the end of a word and a small
/// sigma elsewhere, and any other character has the mapping that `char::to_lowercase` gives, which
/// depends on the character alone.
#[verifier::external_body]
fn std_lowercase(s: &str) -> (r: String)
    ensures
        r@ == Seq::new(
            s@.len(),
            |i: int|
                if s@[i] as u32 <= 127 {
                    seq![ascii_lower(s@[i])]
                } else if s@[i] == CAPITAL_SIGMA {
                    if ends_word(s@, i) {
                        seq!['\u{3c2}']
                    } else {
                        seq!['\u{3c3}']
                    }
                } else {
                    unicode_lowercase(s@[i])
                },
        ).flatten(),
{
    s.to_lowercase()
}

/// The text in lower case.
pub(crate) fn to_lowercase(s: &str) -> (r: String)
    ensures
        r@ == lowercase(s@),
{
    let r: String = std_lowercase(s);
    proof {
        assert(Seq::new(s@.len(), |i: int| lowercase_at(s@, i)) =~= Seq::new(
            s@.len(),
            |i: int|
                if s@[i] as u32 <= 127 {
                    seq![ascii_lower(s@[i])]
                } else if s@[i] == CAPITAL_SIGMA {
                    if ends_word(s@, i) {
                        seq!['\u{3c2}']
                    } else {
                        seq!['\u{3c3}']
                    }
                } else {
                    unicode_lowercase(s@[i])
                },
        ));
    }
    r
}

proof fn lemma_single_pieces(pieces: Seq<Seq<char>>, s: Seq<char>)
    requires
        pieces.len() == s.len(),
        forall|i: int| 0 <= i < s.len() ==> #[trigger] pieces[i] == seq![s[i]],
    ensures
        pieces.flatten() == s,
    decreases s.len(),
{
    if s.len() == 0 {
        assert(pieces.flatten() =~= s);
    } else {
        let front = pieces.drop_last();
        assert forall|i: int| 0 <= i < s.len() - 1 implies #[trigger] front[i] == seq![
            s.drop_last()[i],
        ] by {
            assert(front[i] == pieces[i]);
        }
        lemma_single_pieces(front, s.drop_last());
        front.lemma_flatten_push(pieces.last());
        assert(front.push(pieces.last()) =~= pieces);
        assert(pieces[s.len() - 1] == seq![s[s.len() - 1]]);
        assert(s.drop_last() + seq![s.last()] =~= s);
    }
}

/// Of ASCII text only the letters `A` to `Z` change.
pub proof fn lemma_lowercase_of_ascii(s: Seq<char>)
    requires
        all_ascii(s),
    ensures
        lowercase(s) == ascii_lowercase(s),
{
    let pieces = Seq::new(s.len(), |i: int| lowercase_at(s, i));
    assert forall|i: int| 0 <= i < s.len() implies #[trigger] pieces[i] == seq![
        ascii_lowercase(s)[i],
    ] by {
        assert(s[i] as u32 <= 127);
    }
    lemma_single_pieces(pieces, ascii_lowercase(s));
}

proof fn lemma_lowercase_drops_ascii_case(s: Seq<char>)
    requires
        !s.contains(CAPITAL_SIGMA),
    ensures
        lowercase(ascii_uppercase(s)) == lowercase(s),
        lowercase(ascii_lowercase(s)) == lowercase(s),
{
    let up = ascii_uppercase(s);
    let low = ascii_lowercase(s);
    assert forall|i: int| 0 <= i < s.len() implies #[trigger] lowercase_at(up, i) == lowercase_at(
        s,
        i,
    ) && lowercase_at(low, i) == lowercase_at(s, i) by {
        assert(s.contains(s[i]));
    }
    assert(Seq::new(up.len(), |i: int| lowercase_at(up, i)) =~= Seq::new(
        s.len(),
        |i: int| lowercase_at(s, i),
    ));
    assert(Seq::new(low.len(), |i: int| lowercase_at(low, i)) =~= Seq::new(
        s.len(),
        |i: int| lowercase_at(s, i),
    ));
}

proof fn lemma_lowercase_of_sigma(s: Seq<char>)
    requires
        s.contains(CAPITAL_SIGMA),
    ensures
        !all_ascii(lowercase(s)),
{
    let pieces = Seq::new(s.len(), |i: int| lowercase_at(s, i));
    let k = choose|k: int| 0 <= k < s.len() && s[k] == CAPITAL_SIGMA;
    assert(pieces[k].len() == 1);
    lemma_in_flatten(pieces, k, 0);
    let low = lowercase(s);
    let m = choose|m: int| 0 <= m < low.len() && low[m] == pieces[k][0];
    assert(low[m] as u32 > 127);
}

proof fn lemma_ascii_case_keeps_sigmas(s: Seq<char>)
    ensures
        ascii_uppercase(s).contains(CAPITAL_SIGMA) == s.contains(CAPITAL_SIGMA),
        ascii_lowercase(s).contains(CAPITAL_SIGMA) == s.contains(CAPITAL_SIGMA),
{
    let up = ascii_uppercase(s);
    let low = ascii_lowercase(s);
    if s.contains(CAPITAL_SIGMA) {
        let k = choose|k: int| 0 <= k < s.len() && s[k] == CAPITAL_SIGMA;
        assert(up[k] == CAPITAL_SIGMA);
        assert(low[k] == CAPITAL_SIGMA);
    }
    if up.contains(CAPITAL_SIGMA) {
        let k = choose|k: int| 0 <= k < up.len() && up[k] == CAPITAL_SIGMA;
        assert(s[k] == CAPITAL_SIGMA);
    }
    if low.contains(CAPITAL_SIGMA) {
        let k = choose|k: int| 0 <= k < low.len() && low[k] == CAPITAL_SIGMA;
        assert(s[k] == CAPITAL_SIGMA);
    }
}

/// The case of ASCII letters makes no difference to the lower case of a text that is ASCII there.
pub proof fn lemma_ascii_case_before_lowercase(s: Seq<char>)
    ensures
        lowercase(ascii_uppercase(s)) == lowercase(s) || !all_ascii(lowercase(s)) && !all_ascii(
            lowercase(ascii_uppercase(s)),
        ),
        lowercase(ascii_lowercase(s)) == lowercase(s) || !all_ascii(lowercase(s)) && !all_ascii(
            lowercase(ascii_lowercase(s)),
        ),
{
    lemma_ascii_case_keeps_sigmas(s);
    if s.contains(CAPITAL_SIGMA) {
        lemma_lowercase_of_sigma(s);
        lemma_lowercase_of_sigma(ascii_uppercase(s));
        lemma_lowercase_of_sigma(ascii_lowercase(s));
    } else {
        lemma_lowercase_drops_ascii_case(s);
    }
}

/// Calls `str::to_uppercase`. Its result is a function of the text, and on ASCII text only the
/// letters `a` to `z` change.
#[verifier::external_body]
pub(crate) fn to_uppercase(s: &str) -> (r: String)
    ensures
        all_ascii(s@) ==> r@ == ascii_uppercase(s@),
        !all_ascii(s@) ==> r@ == unicode_uppercase(s@),
{
    s.to_uppercase()
}

/// Calls `char::is_whitespace`, which tells whether a character has the Unicode property
/// `White_Space`. It depends on the character alone, and of ASCII characters it holds of U+0009 to
/// U+000D and of U+0020.
#[verifier::external_body]
pub(crate) fn is_whitespace(c: char) -> (r: bool)
    ensures
        c as u32 <= 127 ==> r == (c as u32 == 32 || 9 <= c as u32 <= 13),
        c as u32 > 127 ==> r == unicode_white_space(c),
{
    c.is_whitespace()
}

/// `String::push` appends one character.
pub assume_specification[ String::push ](s: &mut String, c: char)
    ensures
        final(s)@ == old(s)@.push(c),
;

// ---------------------------------------------------------------------------------------------
// Trimming

/// `s` without its leading white space.
pub open spec fn trimmed_start(s: Seq<char>) -> Seq<char>
    decreases s.len(),
{
    if s.len() > 0 && white_space(s[0]) {
        trimmed_start(s.skip(1))
    } else {
        s
    }
}

/// `s` without its trailing white space.
pub open spec fn trimmed_end(s: Seq<char>) -> Seq<char>
    decreases s.len(),
{
    if s.len() > 0 && white_space(s.last()) {
        trimmed_end(s.drop_last())
    } else {
        s
    }
}

/// `s` without the white space at its two ends.
pub open spec fn trimmed(s: Seq<char>) -> Seq<char> {
    trimmed_end(trimmed_start(s))
}

/// Text without white space at its ends stays as it is.
pub proof fn lemma_no_space_to_trim(s: Seq<char>)
    requires
        s.len() > 0 ==> !white_space(s[0]) && !white_space(s.last()),
    ensures
        trimmed(s) == s,
{
}

/// No white space is left at the ends.
pub proof fn lemma_trimmed_ends(s: Seq<char>)
    ensures
        trimmed(s).len() > 0 ==> !white_space(trimmed(s)[0]) && !white_space(trimmed(s).last()),
{
    lemma_trimmed_start(s);
    lemma_trimmed_end(trimmed_start(s));
}

proof fn lemma_trimmed_start(s: Seq<char>)
    ensures
        trimmed_start(s).len() > 0 ==> !white_space(trimmed_start(s)[0]),
    decreases s.len(),
{
    if s.len() > 0 && white_space(s[0]) {
        lemma_trimmed_start(s.skip(1));
    }
}

proof fn lemma_trimmed_end(s: Seq<char>)
    ensures
        trimmed_end(s).len() > 0 ==> trimmed_end(s)[0] == s[0] && !white_space(
            trimmed_end(s).last(),
        ),
    decreases s.len(),
{
    if s.len() > 0 && white_space(s.last()) {
        lemma_trimmed_end(s.drop_last());
    }
}

/// Removes the white space at both ends.
pub fn trim(s: &str) -> (r: &str)
    ensures
        r@ == trimmed(s@),
{
    let n: usize = s.unicode_len();
    let mut from: usize = 0;
    assert(s@.skip(0) =~= s@);
    while from < n && is_whitespace(s.get_char(from))
        invariant
            n == s@.len(),
            from <= n,
            trimmed_start(s@) == trimmed_start(s@.skip(from as int)),
        decreases n - from,
    {
        assert(s@.skip(from as int).skip(1) =~= s@.skip(from + 1));
        from = from + 1;
    }
    assert(trimmed_start(s@) == s@.skip(from as int));
    let ghost rest = s@.skip(from as int);
    let mut to: usize = n;
    assert(s@.subrange(from as int, n as int) =~= rest);
    while to > from && is_whitespace(s.get_char(to - 1))
        invariant
            n == s@.len(),
            from <= to <= n,
            trimmed_end(rest) == trimmed_end(s@.subrange(from as int, to as int)),
        decreases to,
    {
        assert(s@.subrange(from as int, to as int).drop_last() =~= s@.subrange(
            from as int,
            to - 1,
        ));
        to = to - 1;
    }
    s.substring_char(from, to)
}

// ---------------------------------------------------------------------------------------------
// Comparing

/// Whether two texts hold the same characters.
pub fn same_text(a: &str, b: &str) -> (r: bool)
    ensures
        r == (a@ == b@),
{
    let n: usize = a.unicode_len();
    if n != b.unicode_len() {
        return false;
    }
    let mut i: usize = 0;
    while i < n
        invariant
            n == a@.len(),
            n == b@.len(),
            i <= n,
            forall|j: int| 0 <= j < i ==> a@[j] == b@[j],
        decreases n - i,
    {
        if a.get_char(i) != b.get_char(i) {
            return false;
        }
        i = i + 1;
    }
    assert(a@ =~= b@);
    true
}

fn lower_ascii_char(c: char) -> (r: char)
    ensures
        r == ascii_lower(c),
{
    match c {
        'A' => 'a',
        'B' => 'b',
        'C' => 'c',
        'D' => 'd',
        'E' => 'e',
        'F' => 'f',
        'G' => 'g',
        'H' => 'h',
        'I' => 'i',
        'J' => 'j',
        'K' => 'k',
        'L' => 'l',
        'M' => 'm',
        'N' => 'n',
        'O' => 'o',
        'P' => 'p',
        'Q' => 'q',
        'R' => 'r',
        'S' => 's',
        'T' => 't',
        'U' => 'u',
        'V' => 'v',
        'W' => 'w',
        'X' => 'x',
        'Y' => 'y',
        'Z' => 'z',
        _ => c,
    }
}

/// Whether two texts are equal once `A` to `Z` count as `a` to `z`.
pub fn same_ignoring_ascii_case(a: &str, b: &str) -> (r: bool)
    ensures
        r == (ascii_lowercase(a@) == ascii_lowercase(b@)),
{
    let n: usize = a.unicode_len();
    if n != b.unicode_len() {
        assert(ascii_lowercase(a@).len() != ascii_lowercase(b@).len());
        return false;
    }
    let mut i: usize = 0;
    while i < n
        invariant
            n == a@.len(),
            n == b@.len(),
            i <= n,
            forall|j: int| 0 <= j < i ==> ascii_lower(a@[j]) == ascii_lower(b@[j]),
        decreases n - i,
    {
        if lower_ascii_char(a.get_char(i)) != lower_ascii_char(b.get_char(i)) {
            assert(ascii_lowercase(a@)[i as int] != ascii_lowercase(b@)[i as int]);
            return false;
        }
        i = i + 1;
    }
    assert(ascii_lowercase(a@) =~= ascii_lowercase(b@));
    true
}

// ---------------------------------------------------------------------------------------------
// The part after a separator

/// What follows the last `sep` in `s`; all of `s` where it holds none.
pub open spec fn after_last(s: Seq<char>, sep: char) -> Seq<char>
    decreases s.len(),
{
    if s.len() == 0 || s.last() == sep {
        Seq::empty()
    } else {
        after_last(s.drop_last(), sep).push(s.last())
    }
}

/// The text after the last `sep`, or the whole text.
pub(crate) fn text_after_last(s: &str, sep: char) -> (r: &str)
    ensures
        r@ == after_last(s@, sep),
{
    let n: usize = s.unicode_len();
    let mut from: usize = n;
    assert(s@.subrange(n as int, n as int) =~= Seq::<char>::empty());
    assert(s@.take(n as int) =~= s@);
    assert(after_last(s@, sep) =~= after_last(s@.take(n as int), sep) + s@.subrange(
        n as int,
        n as int,
    ));
    while from > 0 && s.get_char(from - 1) != sep
        invariant
            n == s@.len(),
            from <= n,
            after_last(s@, sep) == after_last(s@.take(from as int), sep) + s@.subrange(
                from as int,
                n as int,
            ),
        decreases from,
    {
        let ghost before = s@.take(from as int);
        assert(before.drop_last() =~= s@.take(from - 1));
        assert(before.last() == s@[from - 1]);
        assert(after_last(before.drop_last(), sep).push(before.last()) + s@.subrange(
            from as int,
            n as int,
        ) =~= after_last(before.drop_last(), sep) + s@.subrange(from - 1, n as int));
        from = from - 1;
    }
    assert(after_last(s@.take(from as int), sep) =~= Seq::<char>::empty());
    assert(after_last(s@, sep) =~= s@.subrange(from as int, n as int));
    s.substring_char(from, n)
}

} // verus!

//! Language codes.

use vstd::prelude::*;
use vstd::string::*;

use crate::text::{
    all_ascii, ascii_lowercase, ascii_uppercase, characters, lemma_ascii_case_before_lowercase,
    lemma_lowercase_of_ascii, lemma_no_space_to_trim, lemma_trimmed_ends, lowercase, to_lowercase,
    trim, trimmed, white_space,
};

verus! {

/// The three-letter code of the language that `isolang::Language::from_639_1` finds for a code of two
/// letters, if it finds one.
pub uninterp spec fn language_by_639_1(code: Seq<char>) -> Option<Seq<char>>;

/// The three-letter code of the language that `isolang::Language::from_639_3` finds for a code of
/// three letters, if it finds one.
pub uninterp spec fn language_by_639_3(code: Seq<char>) -> Option<Seq<char>>;

/// Whether `s` holds the letters `a` to `z` only.
pub open spec fn lower_letters(s: Seq<char>) -> bool {
    forall|i: int| 0 <= i < s.len() ==> 97 <= (#[trigger] s[i]) as u32 <= 122
}

/// Whether `code` is the three-letter code of a language, by which that language is found.
pub open spec fn is_language(code: Seq<char>) -> bool {
    code.len() == 3 && lower_letters(code) && language_by_639_3(code) == Some(code)
}

/// The three-letter code of the language that has `code` as its two-letter code. Nothing but two
/// lower-case letters is such a code.
pub open spec fn by_two_letters(code: Seq<char>) -> Option<Seq<char>> {
    if code.len() == 2 && lower_letters(code) {
        language_by_639_1(code)
    } else {
        None
    }
}

/// `code`, where it is the three-letter code of a language. Nothing but three lower-case letters is
/// such a code.
pub open spec fn by_three_letters(code: Seq<char>) -> Option<Seq<char>> {
    if code.len() == 3 && lower_letters(code) {
        language_by_639_3(code)
    } else {
        None
    }
}

/// The three-letter code of the language that has `text` as its three-letter code, else of the one
/// that has it as its two-letter code.
pub open spec fn by_either_code(text: Seq<char>) -> Option<Seq<char>> {
    match by_three_letters(text) {
        Some(code) => Some(code),
        None => by_two_letters(text),
    }
}

/// Calls `isolang::Language::from_639_1`, and takes the language's three-letter code with
/// `to_639_3`. Only codes of two letters from `a` to `z` lead to a language, the result depends on
/// the code alone, and the code it gives is one by which `from_639_3` finds the same language.
#[verifier::external_body]
fn from_639_1(code: &str) -> (r: Option<String>)
    ensures
        code@.len() == 2 && lower_letters(code@) ==> characters(r) == language_by_639_1(code@),
        !(code@.len() == 2 && lower_letters(code@)) ==> r is None,
        r is Some ==> is_language(r->0@),
{
    isolang::Language::from_639_1(code).map(|l| l.to_639_3().to_string())
}

/// Calls `isolang::Language::from_639_3`, and takes the language's three-letter code with
/// `to_639_3`, which is the code it was found by. Only codes of three letters from `a` to `z` lead to
/// a language, and the result depends on the code alone.
#[verifier::external_body]
fn from_639_3(code: &str) -> (r: Option<String>)
    ensures
        code@.len() == 3 && lower_letters(code@) ==> characters(r) == language_by_639_3(code@),
        !(code@.len() == 3 && lower_letters(code@)) ==> r is None,
        r is Some ==> r->0@ == code@ && is_language(r->0@),
{
    isolang::Language::from_639_3(code).map(|l| l.to_639_3().to_string())
}

/// Calls `from_str` of `isolang::Language`, and takes the language's three-letter code with
/// `to_639_3`. Without the lower-case names of languages built in, it looks a text up as a
/// three-letter code, else as a two-letter code.
#[verifier::external_body]
fn from_text(text: &str) -> (r: Option<String>)
    ensures
        characters(r) == by_either_code(text@),
        r is Some ==> is_language(r->0@),
{
    <isolang::Language as std::str::FromStr>::from_str(text).ok().map(
        |l| l.to_639_3().to_string(),
    )
}

/// The three-letter code of a language that is given by a two-letter code, else by a three-letter
/// code, else by either, whatever the case of the code and the space around it.
pub open spec fn three_letter_code(lang: Seq<char>) -> Option<Seq<char>> {
    let plain = lowercase(trimmed(lang));
    match by_two_letters(plain) {
        Some(code) => Some(code),
        None => match by_three_letters(plain) {
            Some(code) => Some(code),
            None => by_either_code(plain),
        },
    }
}

/// What three lookups of a language come to: the first of them that found one.
pub fn first_found(by_two: Option<String>, by_three: Option<String>, by_text: Option<String>) -> (r:
    Option<String>)
    ensures
        r == match by_two {
            Some(_) => by_two,
            None => match by_three {
                Some(_) => by_three,
                None => by_text,
            },
        },
{
    match by_two {
        Some(code) => Some(code),
        None => match by_three {
            Some(code) => Some(code),
            None => by_text,
        },
    }
}

/// The three-letter code of a language. A code that is found is found again as itself, and white
/// space alone names no language.
pub fn lang_three_letter(lang: &str) -> (r: Option<String>)
    ensures
        characters(r) == three_letter_code(lang@),
        r is Some ==> is_language(r->0@) && three_letter_code(r->0@) == Some(r->0@),
        trimmed(lang@).len() == 0 ==> r is None,
{
    let plain: String = to_lowercase(trim(lang));
    let by_two: Option<String> = from_639_1(plain.as_str());
    let by_three: Option<String> = from_639_3(plain.as_str());
    let by_text: Option<String> = from_text(plain.as_str());
    let found: Option<String> = first_found(by_two, by_three, by_text);
    proof {
        if found is Some {
            law_three_letter_code_stands_for_itself(found->0@);
        }
        if trimmed(lang@).len() == 0 {
            law_blank_text_names_no_language(lang@);
        }
    }
    found
}

// ---------------------------------------------------------------------------------------------
// Laws

/// The three-letter code of a language leads to itself.
pub proof fn law_three_letter_code_stands_for_itself(code: Seq<char>)
    requires
        is_language(code),
    ensures
        three_letter_code(code) == Some(code),
{
    lemma_letters_stay(code);
}

proof fn lemma_letters_stay(code: Seq<char>)
    requires
        lower_letters(code),
    ensures
        trimmed(code) == code,
        lowercase(code) == code,
{
    assert forall|i: int| 0 <= i < code.len() implies !white_space(#[trigger] code[i]) by {}
    lemma_no_space_to_trim(code);
    assert(all_ascii(code)) by {
        assert forall|i: int| 0 <= i < code.len() implies (#[trigger] code[i]) as u32 <= 127 by {}
    }
    lemma_lowercase_of_ascii(code);
    assert(ascii_lowercase(code) =~= code);
}

/// White space alone names no language, and neither does no text at all.
pub proof fn law_blank_text_names_no_language(lang: Seq<char>)
    requires
        trimmed(lang).len() == 0,
    ensures
        three_letter_code(lang) is None,
{
    lemma_lowercase_of_ascii(trimmed(lang));
    assert(ascii_lowercase(trimmed(lang)).len() == 0);
}

/// The space around a name and the case of its ASCII letters play no part. What is trimmed and in
/// lower case already leads to the same language: wherever there is one, for names in ASCII, and
/// wherever trimming and lower case leave as it is what they gave before.
pub proof fn law_case_and_space_play_no_part(lang: Seq<char>)
    ensures
        three_letter_code(trimmed(lang)) == three_letter_code(lang),
        three_letter_code(ascii_uppercase(trimmed(lang))) == three_letter_code(lang),
        three_letter_code(ascii_lowercase(trimmed(lang))) == three_letter_code(lang),
        ({
            let plain = lowercase(trimmed(lang));
            three_letter_code(lang) is Some || all_ascii(trimmed(lang)) || lowercase(trimmed(plain))
                == plain ==> three_letter_code(plain) == three_letter_code(lang)
        }),
{
    let bare = trimmed(lang);
    let up = ascii_uppercase(bare);
    let low = ascii_lowercase(bare);
    lemma_trimmed_ends(lang);
    if bare.len() > 0 {
        assert(!white_space(low[0]) && !white_space(low.last()));
        assert(!white_space(up[0]) && !white_space(up.last()));
    }
    lemma_no_space_to_trim(bare);
    lemma_no_space_to_trim(up);
    lemma_no_space_to_trim(low);
    lemma_ascii_case_before_lowercase(bare);
    lemma_only_letters_name_a_language(lowercase(bare));
    lemma_only_letters_name_a_language(lowercase(up));
    lemma_only_letters_name_a_language(lowercase(low));
    if three_letter_code(lang) is Some {
        lemma_letters_stay(lowercase(bare));
    }
    if all_ascii(bare) {
        lemma_lowercase_of_ascii(bare);
    }
}

proof fn lemma_only_letters_name_a_language(plain: Seq<char>)
    ensures
        by_either_code(plain) is Some ==> lower_letters(plain) && all_ascii(plain),
{
    if lower_letters(plain) {
        assert forall|i: int| 0 <= i < plain.len() implies (#[trigger] plain[i]) as u32 <= 127 by {}
    }
}

} // verus!

//! Searching subtitles for an item, and fetching one that was found.

use vstd::prelude::*;
use vstd::string::*;

use crate::ids::{hyphenated, id_text, law_hyphenated_tells_ids_apart, new_v4, uuid_version};
use crate::language::{lang_three_letter, three_letter_code};
use crate::remote_search::ApiError;
use crate::text::{
    after_last, all_ascii, ascii_lowercase, ascii_uppercase, characters,
    lemma_ascii_case_before_lowercase, lemma_lowercase_of_ascii, lowercase,
    same_ignoring_ascii_case, same_text, text_after_last, to_lowercase, to_uppercase, uppercase,
};

verus! {

/// How long the address of a subtitle that was found is kept, in seconds.
pub const SUBTITLE_TTL_SECS: u64 = 3600;

/// What a client asks of a subtitle search.
#[derive(Clone, Copy, Debug, PartialEq, Eq, Structural)]
pub struct SubtitleSearchQuery {
    pub is_perfect_match: Option<bool>,
}

impl Default for SubtitleSearchQuery {
    fn default() -> (r: SubtitleSearchQuery)
        ensures
            r == (SubtitleSearchQuery { is_perfect_match: None }),
    {
        SubtitleSearchQuery { is_perfect_match: None }
    }
}

// ---------------------------------------------------------------------------------------------
// Formats

/// Whether a file extension, in lower case, is that of a subtitle.
pub open spec fn is_subtitle_extension(ext: Seq<char>) -> bool {
    ext == "srt"@ || ext == "vtt"@ || ext == "ass"@ || ext == "ssa"@ || ext == "sub"@
}

/// The format that an address ends in, in upper case, where it is one of a subtitle.
pub open spec fn format_of(url: Seq<char>) -> Option<Seq<char>> {
    let low = lowercase(after_last(url, '.'));
    if is_subtitle_extension(low) {
        Some(uppercase(low))
    } else {
        None
    }
}

/// The names of subtitle formats.
pub open spec fn is_subtitle_format(name: Seq<char>) -> bool {
    name == "SRT"@ || name == "VTT"@ || name == "ASS"@ || name == "SSA"@ || name == "SUB"@
}

/// The format that a file extension in ASCII stands for, whatever its case.
pub open spec fn format_of_ascii(ext: Seq<char>) -> Option<Seq<char>> {
    if is_subtitle_extension(ascii_lowercase(ext)) {
        Some(ascii_uppercase(ext))
    } else {
        None
    }
}

proof fn lemma_extensions_are_ascii(low: Seq<char>)
    requires
        is_subtitle_extension(low),
    ensures
        all_ascii(low),
        uppercase(low) == ascii_uppercase(low),
        is_subtitle_format(uppercase(low)),
{
    reveal_strlit("srt");
    reveal_strlit("vtt");
    reveal_strlit("ass");
    reveal_strlit("ssa");
    reveal_strlit("sub");
    reveal_strlit("SRT");
    reveal_strlit("VTT");
    reveal_strlit("ASS");
    reveal_strlit("SSA");
    reveal_strlit("SUB");
    let up = ascii_uppercase(low);
    if low == "srt"@ {
        assert(up =~= "SRT"@);
    } else if low == "vtt"@ {
        assert(up =~= "VTT"@);
    } else if low == "ass"@ {
        assert(up =~= "ASS"@);
    } else if low == "ssa"@ {
        assert(up =~= "SSA"@);
    } else {
        assert(up =~= "SUB"@);
    }
}

/// An address that ends in a file extension in ASCII has the format of that extension, whatever its
/// case; and every format that an address has is one of the five.
pub proof fn law_format_of_an_address(url: Seq<char>)
    ensures
        all_ascii(after_last(url, '.')) ==> format_of(url) == format_of_ascii(after_last(url, '.')),
        format_of(url) matches Some(name) ==> is_subtitle_format(name),
{
    let ext = after_last(url, '.');
    let low = lowercase(ext);
    if is_subtitle_extension(low) {
        lemma_extensions_are_ascii(low);
    }
    if all_ascii(ext) {
        lemma_lowercase_of_ascii(ext);
    }
    assert(ascii_uppercase(ascii_lowercase(ext)) =~= ascii_uppercase(ext));
}

proof fn lemma_extension_in_other_case(url: Seq<char>)
    ensures
        after_last(ascii_uppercase(url), '.') == ascii_uppercase(after_last(url, '.')),
        after_last(ascii_lowercase(url), '.') == ascii_lowercase(after_last(url, '.')),
    decreases url.len(),
{
    let up = ascii_uppercase(url);
    let low = ascii_lowercase(url);
    if url.len() == 0 {
        assert(ascii_uppercase(after_last(url, '.')) =~= Seq::<char>::empty());
        assert(ascii_lowercase(after_last(url, '.')) =~= Seq::<char>::empty());
    } else {
        lemma_extension_in_other_case(url.drop_last());
        assert(up.drop_last() =~= ascii_uppercase(url.drop_last()));
        assert(low.drop_last() =~= ascii_lowercase(url.drop_last()));
        assert(after_last(up, '.') =~= ascii_uppercase(after_last(url, '.')));
        assert(after_last(low, '.') =~= ascii_lowercase(after_last(url, '.')));
    }
}

/// The case of an address plays no part in its format.
pub proof fn law_case_of_an_address_plays_no_part(url: Seq<char>)
    ensures
        format_of(ascii_uppercase(url)) == format_of(url),
        format_of(ascii_lowercase(url)) == format_of(url),
{
    let ext = after_last(url, '.');
    lemma_extension_in_other_case(url);
    lemma_ascii_case_before_lowercase(ext);
    lemma_only_ascii_is_an_extension(lowercase(ext));
    lemma_only_ascii_is_an_extension(lowercase(ascii_uppercase(ext)));
    lemma_only_ascii_is_an_extension(lowercase(ascii_lowercase(ext)));
}

proof fn lemma_only_ascii_is_an_extension(low: Seq<char>)
    ensures
        !all_ascii(low) ==> !is_subtitle_extension(low),
{
    if is_subtitle_extension(low) {
        lemma_extensions_are_ascii(low);
    }
}

/// The format that a lower-case file extension stands for.
pub fn format_of_extension(low: &str) -> (r: Option<String>)
    ensures
        r is Some <==> is_subtitle_extension(low@),
        r is Some ==> r->0@ == uppercase(low@) && r->0@ == ascii_uppercase(low@),
{
    if same_text(low, "srt") || same_text(low, "vtt") || same_text(low, "ass") || same_text(
        low,
        "ssa",
    ) || same_text(low, "sub") {
        proof {
            lemma_extensions_are_ascii(low@);
        }
        Some(to_uppercase(low))
    } else {
        None
    }
}

/// The format that an address ends in, in upper case.
pub fn subtitle_format_from_url(url: &str) -> (r: Option<String>)
    ensures
        characters(r) == format_of(url@),
        all_ascii(after_last(url@, '.')) ==> characters(r) == format_of_ascii(
            after_last(url@, '.'),
        ),
        r is Some ==> is_subtitle_format(r->0@),
{
    proof {
        law_format_of_an_address(url@);
    }
    let low: String = to_lowercase(text_after_last(url, '.'));
    format_of_extension(low.as_str())
}

// ---------------------------------------------------------------------------------------------
// Searching

/// A subtitle that an addon offers.
pub struct SubtitleSource {
    pub id: String,
    /// The language it names, and that language's two-letter code.
    pub lang: Option<String>,
    pub lang_two: Option<String>,
    /// The address to fetch it from.
    pub url: String,
    /// What its format is read from.
    pub path_hint: String,
}

/// A subtitle as clients see it.
pub struct RemoteSubtitleInfo {
    pub id: String,
    pub name: Option<String>,
    pub provider_name: Option<String>,
    pub three_letter_iso_language_name: Option<String>,
    pub format: Option<String>,
    pub is_hash_match: Option<bool>,
    pub ai_translated: Option<bool>,
    pub machine_translated: Option<bool>,
}

/// A subtitle that was found, and the address to keep under `key`.
pub struct FoundSubtitle {
    pub info: RemoteSubtitleInfo,
    pub key: String,
    pub url: String,
}

/// The key under which the address of a subtitle is kept.
pub open spec fn subtitle_key(id: Seq<char>) -> Seq<char> {
    "subtitle:"@ + id
}

/// The language asked for: its two-letter code, or its lower-case name where it has none.
pub open spec fn wanted_language(language: Seq<char>, two: Option<Seq<char>>) -> Seq<char> {
    match two {
        Some(code) => code,
        None => lowercase(language),
    }
}

/// The subtitles in a language, whatever the case of its code.
pub open spec fn in_language(wanted: Seq<char>) -> spec_fn(SubtitleSource) -> bool {
    |s: SubtitleSource|
        match s.lang_two {
            Some(two) => ascii_lowercase(two@) == ascii_lowercase(wanted),
            None => false,
        }
}

/// The name of a subtitle's language; empty where it names none.
pub open spec fn language_name(s: SubtitleSource) -> Seq<char> {
    match s.lang {
        Some(l) => l@,
        None => Seq::empty(),
    }
}

/// Whether `r` is what is shown and kept of `s` under the id `id`.
pub open spec fn found_as(r: FoundSubtitle, s: SubtitleSource, id: u128) -> bool {
    &&& r.info.id@ == hyphenated(id)
    &&& r.key@ == subtitle_key(r.info.id@)
    &&& r.url@ == s.url@
    &&& characters(r.info.name) == Some(s.id@)
    &&& characters(r.info.provider_name) == Some("Stremio"@)
    &&& characters(r.info.three_letter_iso_language_name) == three_letter_code(language_name(s))
    &&& characters(r.info.format) == format_of(s.path_hint@)
    &&& r.info.is_hash_match == Some(false)
    &&& r.info.ai_translated == Some(false)
    &&& r.info.machine_translated == Some(false)
}

fn key_of(id: &str) -> (r: String)
    ensures
        r@ == subtitle_key(id@),
{
    let mut key: String = "subtitle:".to_owned();
    key.append(id);
    key
}

/// What is shown and kept of a subtitle under the id `id`.
pub fn found_subtitle(s: &SubtitleSource, id: u128) -> (r: FoundSubtitle)
    ensures
        found_as(r, *s, id),
{
    let text: String = id_text(id);
    let key: String = key_of(text.as_str());
    let three_letter: Option<String> = match &s.lang {
        Some(l) => lang_three_letter(l.as_str()),
        None => {
            proof {
                reveal_strlit("");
                assert(""@ =~= Seq::<char>::empty());
            }
            lang_three_letter("")
        },
    };
    FoundSubtitle {
        info: RemoteSubtitleInfo {
            id: text,
            name: Some(s.id.as_str().to_owned()),
            provider_name: Some("Stremio".to_owned()),
            three_letter_iso_language_name: three_letter,
            format: subtitle_format_from_url(s.path_hint.as_str()),
            is_hash_match: Some(false),
            ai_translated: Some(false),
            machine_translated: Some(false),
        },
        key,
        url: s.url.as_str().to_owned(),
    }
}

fn matches_language(s: &SubtitleSource, wanted: &str) -> (r: bool)
    ensures
        r == in_language(wanted@)(*s),
{
    match &s.lang_two {
        Some(two) => same_ignoring_ascii_case(two.as_str(), wanted),
        None => false,
    }
}

/// Whether `r` shows exactly the subtitles `kept`, in order, the one at `i` under the id `ids[i]`.
pub open spec fn found_under(
    r: Seq<FoundSubtitle>,
    kept: Seq<SubtitleSource>,
    ids: Seq<u128>,
) -> bool {
    &&& r.len() == kept.len()
    &&& ids.len() == kept.len()
    &&& forall|i: int| 0 <= i < r.len() ==> found_as(#[trigger] r[i], kept[i], ids[i])
}

/// Whether `ids` could have been drawn at random.
pub open spec fn random_ids(ids: Seq<u128>) -> bool {
    forall|i: int| 0 <= i < ids.len() ==> uuid_version(#[trigger] ids[i]) == 4
}

/// Whether `r` shows exactly the subtitles `kept`, in order, each under a random id of its own.
pub open spec fn found_all(r: Seq<FoundSubtitle>, kept: Seq<SubtitleSource>) -> bool {
    exists|ids: Seq<u128>| random_ids(ids) && #[trigger] found_under(r, kept, ids)
}

/// How many of the subtitles are in a language.
pub fn count_in_language(subs: &Vec<SubtitleSource>, wanted: &str) -> (r: usize)
    ensures
        r == subs@.filter(in_language(wanted@)).len(),
{
    let ghost pred = in_language(wanted@);
    let mut n: usize = 0;
    let mut i: usize = 0;
    proof {
        reveal(Seq::filter);
        assert(subs@.take(0).filter(pred) =~= Seq::<SubtitleSource>::empty());
    }
    while i < subs.len()
        invariant
            n <= i <= subs.len(),
            pred == in_language(wanted@),
            n == subs@.take(i as int).filter(pred).len(),
        decreases subs.len() - i,
    {
        proof {
            assert(subs@.take(i + 1) =~= subs@.take(i as int).push(subs@[i as int]));
            subs@.take(i as int).lemma_filter_push(subs@[i as int], pred);
        }
        if matches_language(&subs[i], wanted) {
            n = n + 1;
        }
        i = i + 1;
    }
    assert(subs@.take(i as int) =~= subs@);
    n
}

/// The subtitles in a language as they are shown and kept, in order, under the given ids.
pub fn found_subtitles(subs: &Vec<SubtitleSource>, wanted: &str, ids: &Vec<u128>) -> (r: Vec<
    FoundSubtitle,
>)
    requires
        ids@.len() == subs@.filter(in_language(wanted@)).len(),
    ensures
        found_under(r@, subs@.filter(in_language(wanted@)), ids@),
{
    let ghost pred = in_language(wanted@);
    let mut out: Vec<FoundSubtitle> = Vec::new();
    let mut i: usize = 0;
    proof {
        reveal(Seq::filter);
        assert(subs@.take(0).filter(pred) =~= Seq::<SubtitleSource>::empty());
    }
    while i < subs.len()
        invariant
            i <= subs.len(),
            pred == in_language(wanted@),
            ids@.len() == subs@.filter(pred).len(),
            out@.len() <= ids@.len(),
            found_under(out@, subs@.take(i as int).filter(pred), ids@.take(out@.len() as int)),
        decreases subs.len() - i,
    {
        let ghost seen = subs@.take(i as int);
        let ghost before = out@;
        proof {
            assert(subs@.take(i + 1) =~= seen.push(subs@[i as int]));
            seen.lemma_filter_push(subs@[i as int], pred);
            assert(subs@ =~= subs@.take(i + 1) + subs@.skip(i + 1));
            Seq::filter_distributes_over_add(subs@.take(i + 1), subs@.skip(i + 1), pred);
        }
        if matches_language(&subs[i], wanted) {
            let found = found_subtitle(&subs[i], ids[out.len()]);
            out.push(found);
            proof {
                let kept = seen.filter(pred).push(subs@[i as int]);
                assert forall|k: int| 0 <= k < out@.len() implies found_as(
                    #[trigger] out@[k],
                    kept[k],
                    ids@.take(out@.len() as int)[k],
                ) by {
                    if k < before.len() {
                        assert(found_as(before[k], seen.filter(pred)[k], ids@[k]));
                    }
                }
            }
        }
        i = i + 1;
    }
    assert(subs@.take(i as int) =~= subs@);
    assert(ids@.take(out@.len() as int) =~= ids@);
    out
}

/// The subtitles found for an item in a language, of those that addons offer for it; `None` for
/// them where there is no such item. `two` is the two-letter code of the language. Each is found
/// under an id drawn for it.
pub fn search_remote_subtitles(
    offered: &Option<Vec<SubtitleSource>>,
    language: &str,
    two: Option<String>,
) -> (r: Result<Vec<FoundSubtitle>, ApiError>)
    ensures
        *offered is None ==> r == Err::<Vec<FoundSubtitle>, ApiError>(ApiError::ItemNotFound),
        *offered is Some ==> r is Ok && found_all(
            r->Ok_0@,
            offered->0@.filter(in_language(wanted_language(language@, characters(two)))),
        ),
{
    let wanted: String = match two {
        Some(code) => code,
        None => to_lowercase(language),
    };
    match offered {
        None => Err(ApiError::ItemNotFound),
        Some(subs) => {
            let n: usize = count_in_language(subs, wanted.as_str());
            let mut ids: Vec<u128> = Vec::new();
            while ids.len() < n
                invariant
                    ids@.len() <= n,
                    random_ids(ids@),
                decreases n - ids.len(),
            {
                let id: u128 = new_v4();
                ids.push(id);
            }
            Ok(found_subtitles(subs, wanted.as_str(), &ids))
        },
    }
}

/// The key under which the address of a subtitle is looked up.
pub fn download_remote_subtitle(subtitle_id: &str) -> (r: String)
    ensures
        r@ == subtitle_key(subtitle_id@),
{
    key_of(subtitle_id)
}

// ---------------------------------------------------------------------------------------------
// Laws

/// The id that a client was shown leads to the key under which the address was kept.
pub proof fn law_download_finds_what_search_kept(r: FoundSubtitle, s: SubtitleSource, id: u128)
    requires
        found_as(r, s, id),
    ensures
        subtitle_key(r.info.id@) == r.key@,
        r.url@ == s.url@,
{
}

/// Different ids have different keys.
pub proof fn law_keys_are_kept_apart(a: Seq<char>, b: Seq<char>)
    requires
        subtitle_key(a) == subtitle_key(b),
    ensures
        a == b,
{
    let prefix = "subtitle:"@;
    assert(a =~= (prefix + a).skip(prefix.len() as int));
    assert(b =~= (prefix + b).skip(prefix.len() as int));
}

/// Subtitles that were found under different ids are kept under different keys, each with its own
/// address.
pub proof fn law_found_subtitles_are_kept_apart(
    r: Seq<FoundSubtitle>,
    kept: Seq<SubtitleSource>,
    ids: Seq<u128>,
    i: int,
    j: int,
)
    requires
        found_under(r, kept, ids),
        ids.no_duplicates(),
        0 <= i < j < r.len(),
    ensures
        r[i].info.id@ != r[j].info.id@,
        r[i].key@ != r[j].key@,
        r[i].url@ == kept[i].url@,
        r[j].url@ == kept[j].url@,
{
    assert(found_as(r[i], kept[i], ids[i]));
    assert(found_as(r[j], kept[j], ids[j]));
    if r[i].key@ == r[j].key@ {
        law_keys_are_kept_apart(r[i].info.id@, r[j].info.id@);
    }
    if r[i].info.id@ == r[j].info.id@ {
        law_hyphenated_tells_ids_apart(ids[i], ids[j]);
    }
}

} // verus!

//! What holds of every request about shows, of every search, and of every result that is applied.

use vstd::prelude::*;

use crate::calendar::{on_calendar, rfc3339_utc};
use crate::ids::{hyphenated, uuid_version};
use crate::language::{language_by_639_1, language_by_639_3, lower_letters, three_letter_code};
use crate::lookup::{law_last_pair_counts, lemma_pairs_map_domain, pairs_map};
use crate::media::MediaKind;
use crate::nextup::Candidate;
use crate::number::{decimal, parsed_i64};
use crate::query::{or_zero, GetItemsModel, MediaFilterModel};
use crate::remote_search::{
    ids_applied, searched_name, searched_year, shows_entry, ExternalIdsModel, ProviderEntry,
    RemoteSearchResult, SearchInfo,
};
use crate::sequences::{
    law_stable_order_exists, law_stable_order_lists_every_position, precedes, stable_order,
};
use crate::shows::{
    candidates_query, episodes_query, or_unlimited, page_slice, place_keys, places, seasons_query,
};
use crate::subtitles::{
    format_of, found_all, found_as, found_under, in_language, random_ids, subtitle_key,
    wanted_language, FoundSubtitle, SubtitleSource,
};
use crate::text::{
    after_last, all_ascii, ascii_lower, ascii_lowercase, characters, lowercase, trimmed,
};
use crate::time::Timestamp;
use crate::upcoming::{in_scope, scope_of, upcoming_filter, ParentScope, UserPolicy};

verus! {

// ---------------------------------------------------------------------------------------------
// Seasons and episodes

/// A request for seasons is about the show, asks for seasons only and is sorted by number,
/// ascending, unless the client sorts; everything else stays as the client asked for it.
pub proof fn law_request_for_seasons(item_id: u128, q: GetItemsModel)
    ensures
        ({
            let r = seasons_query(item_id, q);
            &&& r.parent_id == Some(item_id)
            &&& r.include_item_types matches Some(types) && types.len() == 1 && types[0] is Season
            &&& q.sort_by is Some ==> r.sort_by == q.sort_by && r.sort_order == q.sort_order
            &&& q.sort_by is None ==> {
                &&& r.sort_by matches Some(by) && by.len() == 1 && by[0] is IndexNumber
                &&& r.sort_order matches Some(order) && order.len() == 1 && order[0] is Ascending
            }
            &&& r.user_id == q.user_id
            &&& r.series_id == q.series_id
            &&& r.season_id == q.season_id
            &&& r.ids == q.ids
            &&& r.start_index == q.start_index
            &&& r.limit == q.limit
            &&& r.start_item_id == q.start_item_id
            &&& r.strict_item_filters == q.strict_item_filters
            &&& r.enable_total_record_count == q.enable_total_record_count
            &&& r.enable_resumable == q.enable_resumable
            &&& r.disable_first_episode == q.disable_first_episode
            &&& r.next_up_date_cutoff == q.next_up_date_cutoff
        }),
{
}

/// A request for episodes is about the show, or about the season alone where the client names one;
/// it asks for episodes only and is sorted by season and number, ascending, unless the client
/// sorts; everything else but the start item stays as the client asked for it.
pub proof fn law_request_for_episodes(item_id: u128, q: GetItemsModel)
    ensures
        ({
            let r = episodes_query(item_id, q);
            &&& r.season_id == q.season_id
            &&& q.season_id is None ==> r.series_id == Some(item_id)
            &&& q.season_id is Some ==> r.series_id == q.series_id
            &&& r.include_item_types matches Some(types) && types.len() == 1 && types[0] is Episode
            &&& q.sort_by is Some ==> r.sort_by == q.sort_by && r.sort_order == q.sort_order
            &&& q.sort_by is None ==> {
                &&& r.sort_by matches Some(by) && by.len() == 2 && by[0] is ParentIndexNumber
                    && by[1] is IndexNumber
                &&& r.sort_order matches Some(order) && order.len() == 1 && order[0] is Ascending
            }
            &&& r.start_item_id is None
            &&& r.user_id == q.user_id
            &&& r.parent_id == q.parent_id
            &&& r.ids == q.ids
            &&& r.start_index == q.start_index
            &&& r.limit == q.limit
            &&& r.strict_item_filters == q.strict_item_filters
            &&& r.enable_total_record_count == q.enable_total_record_count
            &&& r.enable_resumable == q.enable_resumable
            &&& r.disable_first_episode == q.disable_first_episode
            &&& r.next_up_date_cutoff == q.next_up_date_cutoff
        }),
{
}

// ---------------------------------------------------------------------------------------------
// Next up

/// The request for the items of candidates names every candidate in order, asks for episodes only
/// and for nothing but what it names, and is not cut to a page; everything else stays as the client
/// asked for it.
pub proof fn law_request_for_candidates(q: GetItemsModel, candidates: Seq<Candidate>, i: int)
    ensures
        ({
            let r = candidates_query(q, candidates);
            &&& r.ids matches Some(ids) && ids.len() == candidates.len() && (0 <= i
                < candidates.len() ==> ids[i] == candidates[i].episode.id)
            &&& r.include_item_types matches Some(types) && types.len() == 1 && types[0] is Episode
            &&& r.strict_item_filters
            &&& r.start_index is None
            &&& r.user_id == q.user_id
            &&& r.parent_id == q.parent_id
            &&& r.series_id == q.series_id
            &&& r.season_id == q.season_id
            &&& r.sort_by == q.sort_by
            &&& r.sort_order == q.sort_order
            &&& r.start_item_id == q.start_item_id
            &&& r.enable_total_record_count == q.enable_total_record_count
            &&& r.enable_resumable == q.enable_resumable
            &&& r.disable_first_episode == q.disable_first_episode
            &&& r.next_up_date_cutoff == q.next_up_date_cutoff
        }),
{
}

/// A page holds what stands from its start on, item by item, and as many items as its limit allows,
/// as far as there are any. Without a start it starts at the first item, and without a limit it
/// goes to the end of any list of up to 4294967295 items.
pub proof fn law_page_is_a_part_of_the_list<T>(
    s: Seq<T>,
    start: Option<u32>,
    limit: Option<u32>,
    i: int,
)
    ensures
        ({
            let from = match start {
                Some(n) => n as int,
                None => 0,
            };
            let most = match limit {
                Some(n) => n as int,
                None => 4294967295,
            };
            let page = page_slice(s, or_zero(start) as int, or_unlimited(limit) as int);
            let rest = if from < s.len() {
                s.len() - from
            } else {
                0
            };
            &&& page.len() == if rest < most {
                rest
            } else {
                most
            }
            &&& 0 <= i < page.len() ==> page[i] == s[from + i]
        }),
{
}

/// Items are put in the order of the candidates: of two items on a page the one whose candidate
/// comes first stands first, and items of one candidate stay in the order they came in. Where a
/// candidate occurs twice, its last place counts. Every item has its place.
pub proof fn law_items_stand_as_their_candidates(
    candidates: Seq<Candidate>,
    items: Seq<u128>,
    i: int,
    j: int,
    a: int,
    b: int,
)
    requires
        items.len() <= usize::MAX,
        candidates.len() <= usize::MAX,
        is_last_place(candidates, a),
        is_last_place(candidates, b),
        0 <= i < j < stable_order(place_keys(candidates, items)).len(),
        ({
            let order = stable_order(place_keys(candidates, items));
            &&& items[order[i] as int] == candidates[a].episode.id
            &&& items[order[j] as int] == candidates[b].episode.id
        }),
    ensures
        a <= b,
        a == b ==> stable_order(place_keys(candidates, items))[i] < stable_order(
            place_keys(candidates, items),
        )[j],
        stable_order(place_keys(candidates, items)).len() == items.len(),
{
    let keys = place_keys(candidates, items);
    let order = stable_order(keys);
    law_stable_order_exists(keys);
    assert(precedes(keys, order[i], order[j]));
    assert(order[i] < keys.len() && order[j] < keys.len());
    law_last_pair_counts(places(candidates), a);
    law_last_pair_counts(places(candidates), b);
}

/// Whether `a` is the last place at which its episode is a candidate.
pub open spec fn is_last_place(candidates: Seq<Candidate>, a: int) -> bool {
    &&& 0 <= a < candidates.len()
    &&& forall|x: int|
        a < x < candidates.len() ==> (#[trigger] candidates[x]).episode.id
            != candidates[a].episode.id
}

/// As many items are asked for as there are different episodes among the candidates.
pub proof fn law_different_candidates_are_asked_for(q: GetItemsModel, candidates: Seq<Candidate>)
    ensures
        candidates_query(q, candidates).limit == Some(
            Set::new(
                |id: u128|
                    exists|i: int|
                        0 <= i < candidates.len() && (#[trigger] candidates[i]).episode.id == id,
            ).len() as u32,
        ),
{
    let pairs = places(candidates);
    let ids = Set::new(
        |id: u128|
            exists|i: int| 0 <= i < candidates.len() && (#[trigger] candidates[i]).episode.id == id,
    );
    assert forall|id: u128| #[trigger] pairs_map(pairs).dom().contains(id) == ids.contains(id) by {
        lemma_pairs_map_domain(pairs, id);
        if pairs_map(pairs).dom().contains(id) {
            let i = choose|i: int| 0 <= i < pairs.len() && (#[trigger] pairs[i]).0 == id;
            assert(candidates[i].episode.id == id);
        }
        if ids.contains(id) {
            let i = choose|i: int|
                0 <= i < candidates.len() && (#[trigger] candidates[i]).episode.id == id;
            assert(pairs[i].0 == id);
        }
    }
    assert(pairs_map(pairs).dom() =~= ids);
}

/// Every item is on the list that pages are cut from, once.
pub proof fn law_every_item_is_on_the_list(candidates: Seq<Candidate>, items: Seq<u128>, k: int)
    requires
        items.len() <= usize::MAX,
        0 <= k < items.len(),
    ensures
        stable_order(place_keys(candidates, items)).contains(k as usize),
        stable_order(place_keys(candidates, items)).no_duplicates(),
{
    let keys = place_keys(candidates, items);
    let order = stable_order(keys);
    law_stable_order_exists(keys);
    law_stable_order_lists_every_position(keys, order, k as usize);
    assert forall|i: int, j: int| 0 <= i < order.len() && 0 <= j < order.len() && i != j implies order[i]
        != order[j] by {
        if i < j {
            assert(precedes(keys, order[i], order[j]));
        } else {
            assert(precedes(keys, order[j], order[i]));
        }
    }
}

// ---------------------------------------------------------------------------------------------
// Upcoming

/// The filter for upcoming episodes asks for episodes, those released from midnight of today on,
/// whether they are available digitally or not, soonest first; for the page, the count and the user
/// that the client asks for, else for the user of the session.
pub proof fn law_filter_for_upcoming_episodes(
    q: GetItemsModel,
    session_user_id: u128,
    scope: ParentScope,
    members: Seq<u128>,
    policy: Option<UserPolicy>,
    now: Timestamp,
)
    requires
        now.secs >= i64::MIN + 86_400,
    ensures
        ({
            let f = upcoming_filter(q, session_user_id, scope, members, policy, now);
            &&& f.kind matches Some(kinds) && kinds.len() == 1 && kinds[0] is Episode
            &&& f.released_after matches Some(t) && t.secs % 86_400 == 0 && t.secs <= now.secs
                && now.secs < t.secs + 86_400 && t.nanos == 0
            &&& f.digital_released_before is None
            &&& f.sort_by.len() == 1 && f.sort_by[0] is PremiereDate
            &&& f.sort_order.len() == 1 && f.sort_order[0] is Ascending
            &&& f.limit == q.limit
            &&& f.offset == q.start_index
            &&& f.include_user_state
            &&& q.user_id is Some ==> f.user_id == q.user_id
            &&& q.user_id is None ==> f.user_id == Some(session_user_id)
            &&& f.total_count <==> q.enable_total_record_count is None
                || q.enable_total_record_count->0
        }),
{
    crate::time::law_midnight_starts_the_day(now);
}

/// A user's policy narrows upcoming episodes by its parental rating, its blocked and its allowed
/// tags, unless it names none, and its filter rules; without a policy nothing of this is narrowed.
pub proof fn law_policy_narrows_upcoming_episodes(
    q: GetItemsModel,
    session_user_id: u128,
    scope: ParentScope,
    members: Seq<u128>,
    policy: Option<UserPolicy>,
    now: Timestamp,
)
    ensures
        ({
            let f = upcoming_filter(q, session_user_id, scope, members, policy, now);
            &&& policy is None ==> f.max_parental_rating is None && f.blocked_tags is None
                && f.allowed_tags is None && !f.policy_filter
            &&& policy matches Some(p) ==> {
                &&& f.max_parental_rating == p.max_parental_rating
                &&& p.blocked_tags@.len() > 0 ==> f.blocked_tags == Some(p.blocked_tags@)
                &&& p.blocked_tags@.len() == 0 ==> f.blocked_tags is None
                &&& p.allowed_tags@.len() > 0 ==> f.allowed_tags == Some(p.allowed_tags@)
                &&& p.allowed_tags@.len() == 0 ==> f.allowed_tags is None
                &&& f.policy_filter == p.has_filter_rules
            }
        }),
{
}

/// The filter narrows by season where the parent is a season, by series where it is a series, by
/// the series that it holds where it is anything else that is stored, and by nothing where it is
/// not stored; and by one of these only.
pub proof fn law_parent_narrows_upcoming_episodes(
    q: GetItemsModel,
    session_user_id: u128,
    parent: Option<(u128, MediaKind)>,
    members: Seq<u128>,
    policy: Option<UserPolicy>,
    now: Timestamp,
)
    ensures
        ({
            let f = upcoming_filter(q, session_user_id, scope_of(parent), members, policy, now);
            match parent {
                None => f.parent_id is None && f.grandparent_id is None && f.grandparent_ids is None,
                Some((id, kind)) => if kind is Series {
                    f.parent_id is None && f.grandparent_id == Some(id) && f.grandparent_ids is None
                } else if kind is Season {
                    f.parent_id == Some(id) && f.grandparent_id is None && f.grandparent_ids is None
                } else {
                    f.parent_id is None && f.grandparent_id is None && f.grandparent_ids == Some(
                        members,
                    )
                },
            }
        }),
{
}

/// An episode passes a filter exactly if it is of the season, of the series and of one of the
/// series that the filter names, as far as it names any.
pub proof fn law_episodes_that_pass_a_filter(
    f: MediaFilterModel,
    season_id: Option<u128>,
    series_id: Option<u128>,
)
    ensures
        in_scope(f, season_id, series_id) <==> (f.parent_id is None || f.parent_id == season_id) && (
        f.grandparent_id is None || f.grandparent_id == series_id) && (f.grandparent_ids is None
            || series_id is Some && (f.grandparent_ids->0).contains(series_id->0)),
{
}

// ---------------------------------------------------------------------------------------------
// Languages

/// A name of two lower-case letters is looked up as a two-letter code, one of three as a
/// three-letter code, and any other finds nothing; the space around it is cut off and its capital
/// letters are made small before.
pub proof fn law_languages_are_found_by_their_codes(lang: Seq<char>)
    ensures
        ({
            let plain = lowercase(trimmed(lang));
            let letters = forall|k: int|
                0 <= k < plain.len() ==> 97 <= (#[trigger] plain[k]) as u32 <= 122;
            &&& letters && plain.len() == 2 ==> three_letter_code(lang) == language_by_639_1(plain)
            &&& letters && plain.len() == 3 ==> three_letter_code(lang) == language_by_639_3(plain)
            &&& !letters || plain.len() != 2 && plain.len() != 3 ==> three_letter_code(lang) is None
        }),
{
    let plain = lowercase(trimmed(lang));
    let letters = forall|k: int|
        0 <= k < plain.len() ==> 97 <= (#[trigger] plain[k]) as u32 <= 122;
    assert(letters <==> lower_letters(plain));
}

// ---------------------------------------------------------------------------------------------
// Searches and their results

/// What is searched for is what the client names: the name, nothing where it names none, and the
/// year.
pub proof fn law_client_says_what_is_searched_for(info: Option<SearchInfo>)
    ensures
        info matches Some(i) ==> searched_year(info) == i.year,
        info matches Some(i) ==> (i.name matches Some(name) ==> searched_name(info) == name@),
        info matches Some(i) ==> (i.name is None ==> searched_name(info).len() == 0),
        info is None ==> searched_name(info).len() == 0 && searched_year(info) is None,
{
}

/// A result shows the title, the year and midnight of the date, the address of the poster and the
/// id that the provider gives, and names the provider; what the provider does not give is not
/// shown.
pub proof fn law_result_shows_what_was_found(r: RemoteSearchResult, e: ProviderEntry)
    requires
        shows_entry(r, e),
    ensures
        characters(r.name) == Some(e.title@),
        e.date matches Some(d) ==> r.production_year == Some(d.year as i64),
        e.date matches Some(d) ==> (on_calendar(d) ==> characters(r.premiere_date) == Some(
            rfc3339_utc(d, 0, 0, 0),
        )),
        e.date is None ==> r.production_year is None && r.premiere_date is None,
        e.poster_path matches Some(p) ==> characters(r.image_url) == Some(
            "https://image.tmdb.org/t/p/w500"@ + p@,
        ),
        e.poster_path is None ==> r.image_url is None,
        characters(r.search_provider_name) == Some("TheMovieDb"@),
        r.provider_ids@.dom().contains("Tmdb"@),
        parsed_i64(r.provider_ids@["Tmdb"@]) == Some(e.id),
        r.provider_ids@["Tmdb"@] == decimal(e.id as int),
        forall|provider: Seq<char>| #[trigger]
            r.provider_ids@.dom().contains(provider) ==> provider == "Tmdb"@,
{
    crate::number::law_decimal_reads_back(e.id);
}

/// The text that a picked result has for a provider, where it has one.
pub open spec fn names(ids: Map<Seq<char>, Seq<char>>, provider: Seq<char>, text: Seq<char>) -> bool {
    ids.dom().contains(provider) && ids[provider] == text
}

/// A picked result replaces the ids that it names, whatever the item had before: an IMDb id by its
/// text, a TMDB or TVDB id by its number.
pub proof fn law_picked_ids_replace_the_old_ones(
    was: ExternalIdsModel,
    ids: Map<Seq<char>, Seq<char>>,
    text: Seq<char>,
)
    ensures
        names(ids, "Imdb"@, text) && text.len() > 0 ==> ids_applied(was, Some(ids)).imdb == Some(
            text,
        ),
        names(ids, "Imdb"@, text) && text.len() == 0 ==> ids_applied(was, Some(ids)).imdb is None,
        names(ids, "Tmdb"@, text) && parsed_i64(text) is Some ==> ids_applied(was, Some(ids)).tmdb
            == parsed_i64(text),
        names(ids, "Tvdb"@, text) && parsed_i64(text) is Some ==> ids_applied(was, Some(ids)).tvdb
            == parsed_i64(text),
{
}

/// An id that the picked result does not name, or names by a text that is no number where it has to
/// be one, stays as it was; all of them do where the result names none.
pub proof fn law_other_ids_stay(was: ExternalIdsModel, ids: Map<Seq<char>, Seq<char>>)
    ensures
        !ids.dom().contains("Imdb"@) ==> ids_applied(was, Some(ids)).imdb == was.imdb,
        !ids.dom().contains("Tmdb"@) || parsed_i64(ids["Tmdb"@]) is None ==> ids_applied(
            was,
            Some(ids),
        ).tmdb == was.tmdb,
        !ids.dom().contains("Tvdb"@) || parsed_i64(ids["Tvdb"@]) is None ==> ids_applied(
            was,
            Some(ids),
        ).tvdb == was.tvdb,
        ids_applied(was, None) == was,
{
}

/// What is applied depends on what is picked alone, as far as it names ids: two items get the same
/// ids from the same result. Applying a result twice is applying it once.
pub proof fn law_applying_again_changes_nothing(
    was: ExternalIdsModel,
    other: ExternalIdsModel,
    ids: Map<Seq<char>, Seq<char>>,
)
    ensures
        ids_applied(ids_applied(was, Some(ids)), Some(ids)) == ids_applied(was, Some(ids)),
        ids.dom().contains("Imdb"@) ==> ids_applied(was, Some(ids)).imdb == ids_applied(
            other,
            Some(ids),
        ).imdb,
{
}

// ---------------------------------------------------------------------------------------------
// Subtitles

/// A subtitle is kept exactly if it has a two-letter code that is the wanted one, character by
/// character, whatever the case of ASCII letters.
pub proof fn law_subtitles_are_kept_by_language(s: SubtitleSource, wanted: Seq<char>)
    ensures
        in_language(wanted)(s) <==> (s.lang_two matches Some(two) && two@.len() == wanted.len()
            && forall|k: int|
            0 <= k < wanted.len() ==> ascii_lower(#[trigger] two@[k]) == ascii_lower(wanted[k])),
{
    match s.lang_two {
        Some(two) => {
            let a = ascii_lowercase(two@);
            let b = ascii_lowercase(wanted);
            if a == b {
                assert(a.len() == b.len());
                assert forall|k: int| 0 <= k < wanted.len() implies ascii_lower(#[trigger] two@[k])
                    == ascii_lower(wanted[k]) by {
                    assert(a[k] == b[k]);
                }
            }
            if two@.len() == wanted.len() && forall|k: int|
                0 <= k < wanted.len() ==> ascii_lower(#[trigger] two@[k]) == ascii_lower(
                    wanted[k],
                ) {
                assert(a =~= b);
            }
        },
        None => {},
    }
}

/// The language that is asked for is the two-letter code where there is one, else what the client
/// wrote, in lower case.
pub proof fn law_language_that_is_asked_for(language: Seq<char>, two: Seq<char>)
    ensures
        wanted_language(language, Some(two)) == two,
        wanted_language(language, None) == lowercase(language),
{
}

/// A subtitle is shown under its own name with its own language and format, and its own address is
/// kept under the key that its id makes.
pub proof fn law_found_subtitle_shows_its_source(r: FoundSubtitle, s: SubtitleSource, id: u128)
    requires
        found_as(r, s, id),
    ensures
        r.info.id@ == hyphenated(id),
        r.key@ == "subtitle:"@ + r.info.id@,
        r.url@ == s.url@,
        characters(r.info.name) == Some(s.id@),
        characters(r.info.provider_name) == Some("Stremio"@),
        s.lang matches Some(l) ==> characters(r.info.three_letter_iso_language_name)
            == three_letter_code(l@),
        s.lang is None ==> r.info.three_letter_iso_language_name is None,
        characters(r.info.format) == format_of(s.path_hint@),
        r.info.is_hash_match == Some(false),
        r.info.ai_translated == Some(false),
        r.info.machine_translated == Some(false),
{
    if s.lang is None {
        let none = Seq::<char>::empty();
        assert(trimmed(none) =~= none);
        crate::language::law_blank_text_names_no_language(none);
    }
}

/// Every subtitle that is kept is found, in order and nothing besides, with its own name and
/// address.
pub proof fn law_every_kept_subtitle_is_found(
    r: Seq<FoundSubtitle>,
    kept: Seq<SubtitleSource>,
    i: int,
)
    requires
        found_all(r, kept),
    ensures
        r.len() == kept.len(),
        0 <= i < r.len() ==> r[i].url@ == kept[i].url@ && characters(r[i].info.name) == Some(
            kept[i].id@,
        ) && r[i].key@ == "subtitle:"@ + r[i].info.id@,
        0 <= i < r.len() ==> exists|id: u128|
            uuid_version(id) == 4 && r[i].info.id@ == #[trigger] hyphenated(id),
{
    let ids = choose|ids: Seq<u128>| random_ids(ids) && #[trigger] found_under(r, kept, ids);
    if 0 <= i < r.len() {
        assert(found_as(r[i], kept[i], ids[i]));
        assert(uuid_version(ids[i]) == 4);
        assert(r[i].info.id@ == hyphenated(ids[i]));
    }
}

/// The key of a subtitle is its id behind a prefix.
pub proof fn law_key_of_a_subtitle(id: Seq<char>)
    ensures
        subtitle_key(id) == "subtitle:"@ + id,
{
}

/// An address has a subtitle format exactly if it ends in one of five extensions, whatever their
/// case, and the format is that extension in capital letters.
pub proof fn law_formats_of_addresses(url: Seq<char>)
    ensures
        ({
            let ext = lowercase(after_last(url, '.'));
            &&& ext == "srt"@ ==> format_of(url) == Some("SRT"@)
            &&& ext == "vtt"@ ==> format_of(url) == Some("VTT"@)
            &&& ext == "ass"@ ==> format_of(url) == Some("ASS"@)
            &&& ext == "ssa"@ ==> format_of(url) == Some("SSA"@)
            &&& ext == "sub"@ ==> format_of(url) == Some("SUB"@)
            &&& ext != "srt"@ && ext != "vtt"@ && ext != "ass"@ && ext != "ssa"@ && ext != "sub"@
                ==> format_of(url) is None
        }),
{
    reveal_strlit("srt");
    reveal_strlit("vtt");
    reveal_strlit("ass");
    reveal_strlit("ssa");
    reveal_strlit("sub");
    reveal_strlit("SRT");
    reveal_strlit("VTT");
    reveal_strlit("ASS");
    reveal_strlit("SSA");
    reveal_strlit("SUB");
    let ext = lowercase(after_last(url, '.'));
    if format_of(url) is Some {
        assert(all_ascii(ext));
        let up = crate::text::ascii_uppercase(ext);
        if ext == "srt"@ {
            assert(up =~= "SRT"@);
        } else if ext == "vtt"@ {
            assert(up =~= "VTT"@);
        } else if ext == "ass"@ {
            assert(up =~= "ASS"@);
        } else if ext == "ssa"@ {
            assert(up =~= "SSA"@);
        } else {
            assert(up =~= "SUB"@);
        }
    }
}

} // verus!

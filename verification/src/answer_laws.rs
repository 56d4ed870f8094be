//! What holds of every answer that the library gives, whatever it is asked.

use vstd::prelude::*;

use crate::activity::ActiveSeries;
use crate::import_rules::wanted_matches;
use crate::library_plan::{addon_models, global_max, plan_imports, AddonCatalogs, PlannedImport};
use crate::lookup::lemma_pairs_map_domain;
use crate::media::{CatalogItem, MediaKind};
use crate::nextup::{
    in_watch_order, next_in_series, next_position, next_up_candidates, state_map, watch_keys,
    watch_order, Candidate, Episode, UserMediaState,
};
use crate::number::parsed_i64;
use crate::query::{BaseItemDtoQueryResult, GetItemsQuery, MediaFilter};
use crate::remote_search::{
    remote_search_apply, remote_search_movie, remote_search_series, ApiError, ExternalIds,
    ProviderIds, ProviderSearch, SearchInfo,
};
use crate::shows::{
    law_located_start_is_the_first, next_in_series_result, nextup_items_query, shows_episodes,
    shows_nextup, shows_nextup_all, shows_seasons, start_at, EpisodesRequest, NextUpRoute,
};
use crate::subtitles::{search_remote_subtitles, FoundSubtitle, SubtitleSource};
use crate::time::Timestamp;
use crate::upcoming::{
    shows_recommendations, shows_upcoming, GetShowRecommendationsQuery, ParentScope,
    RecommendationRequest, UserPolicy,
};
use crate::watch_laws::{
    is_begun, is_done, law_episode_behind_the_played_is_next,
    law_episodes_are_listed_by_the_later_date, law_first_begun_episode_is_next,
    law_list_runs_by_date, law_unplayed_series_starts_at_its_first_season,
    law_watch_order_goes_by_numbers, law_watch_order_holds_every_episode, not_after, number_of,
    release_of,
};

verus! {

// ---------------------------------------------------------------------------------------------
// Imports

/// Every item but channels and playlists is looked for by its external ids, unless a row has its
/// own id.
pub proof fn law_answer_on_items_to_look_for(
    items: &Vec<CatalogItem>,
    rows: &Vec<(u128, MediaKind)>,
    wanted: Vec<bool>,
    i: int,
)
    requires
        call_ensures(wanted_matches, (items, rows), wanted),
        0 <= i < items@.len(),
    ensures
        wanted@.len() == items@.len(),
        wanted@[i] <==> !(items@[i].kind is TvChannel) && !(items@[i].kind is Playlist)
            && forall|k: int| 0 <= k < rows@.len() ==> (#[trigger] rows@[k]).0 != items@[i].id,
{
    lemma_pairs_map_domain(rows@, items@[i].id);
}

/// An import takes up to the maximum of its catalog, whatever the common one is, and up to the
/// common one where the catalog sets none.
pub proof fn law_answer_on_maxima(
    addons: &Vec<AddonCatalogs>,
    global: usize,
    plan: Vec<PlannedImport>,
    i: int,
)
    requires
        call_ensures(plan_imports, (addons, global), plan),
        0 <= i < plan@.len(),
    ensures
        ({
            let p = plan@[i];
            let addon = addons@[p.addon as int];
            let catalog = addon.catalogs@[p.catalog as int];
            &&& p.addon < addons@.len()
            &&& p.catalog < addon.catalogs@.len()
            &&& p.collection_id == catalog.collection_id
            &&& catalog.enabled
            &&& catalog.max_items matches Some(n) ==> p.max == n
            &&& catalog.max_items is None ==> p.max == global
        }),
{
    let models = addon_models(addons@);
    assert(addons@.len() == addons.len());
    assert forall|a: int| 0 <= a < models.len() implies (#[trigger] models[a]).catalogs.len()
        <= usize::MAX by {
        assert(models[a].catalogs.len() == addons@[a].catalogs.len());
    }
    crate::library_plan::law_planned_catalogs_are_enabled(models, global, i);
    crate::library_laws::law_own_maximum_counts(models, global, i);
}

/// The common maximum is what the server sets, and 250 where it sets none.
pub proof fn law_answer_on_the_common_maximum(set: Option<u32>, max: usize)
    requires
        call_ensures(global_max, (set,), max),
    ensures
        set matches Some(n) ==> max == n,
        set is None ==> max == 250,
{
}

// ---------------------------------------------------------------------------------------------
// Next up

/// Episodes in watch order are those that were given, by the number of their season and by their
/// own, each as it is.
pub proof fn law_answer_on_watch_order(
    episodes: &Vec<Episode>,
    ordered: Vec<Episode>,
    i: int,
    j: int,
)
    requires
        call_ensures(watch_order, (episodes,), ordered),
        0 <= i < j < ordered@.len(),
    ensures
        ordered@.len() == episodes@.len(),
        number_of(ordered@[i].parent_idx) <= number_of(ordered@[j].parent_idx),
        number_of(ordered@[i].parent_idx) == number_of(ordered@[j].parent_idx) ==> number_of(
            ordered@[i].idx,
        ) <= number_of(ordered@[j].idx),
        ordered@.contains(episodes@[i]),
        episodes@.contains(ordered@[i]),
{
    assert(episodes@.len() == episodes.len());
    law_watch_order_goes_by_numbers(episodes@, i, j);
    law_watch_order_holds_every_episode(episodes@, i);
}

/// Each listed episode is listed by its release or by the last activity in its series, whichever is
/// later, and those with later dates stand first.
pub proof fn law_answer_on_dates_of_the_list(
    series: &Vec<ActiveSeries>,
    episodes: &Vec<Episode>,
    states: &Vec<UserMediaState>,
    enable_resumable: Option<bool>,
    list: Vec<Candidate>,
    i: int,
    j: int,
)
    requires
        call_ensures(next_up_candidates, (series, episodes, states, enable_resumable), list),
        0 <= i < list@.len(),
    ensures
        exists|k: int|
            0 <= k < series@.len() && list@[i].episode.series_id == Some(
                (#[trigger] series@[k]).series_id,
            ) && not_after(series@[k].last_activity, list@[i].effective) && not_after(
                release_of(list@[i].episode),
                list@[i].effective,
            ) && (list@[i].effective == series@[k].last_activity || list@[i].effective
                == release_of(list@[i].episode)),
        i < j < list@.len() ==> not_after(list@[j].effective, list@[i].effective),
{
    let resume = enable_resumable != Some(false);
    assert(series@.len() == series.len());
    law_episodes_are_listed_by_the_later_date(series@, episodes@, states@, resume, i);
    if i < j < list@.len() {
        law_list_runs_by_date(series@, episodes@, states@, resume, i, j);
    }
}

/// Resuming is enabled unless the client disables it: leaving it open gives the list that enabling
/// it gives.
pub proof fn law_lists_resume_unless_disabled(
    series: &Vec<ActiveSeries>,
    episodes: &Vec<Episode>,
    states: &Vec<UserMediaState>,
    open: Vec<Candidate>,
    enabled: Vec<Candidate>,
)
    requires
        call_ensures(next_up_candidates, (series, episodes, states, None), open),
        call_ensures(next_up_candidates, (series, episodes, states, Some(true)), enabled),
    ensures
        open@ == enabled@,
{
}

/// Where resuming is not disabled and an episode was begun, the answer is one that was begun.
pub proof fn law_begun_episodes_are_resumed(
    episodes: &Vec<Episode>,
    states: &Vec<UserMediaState>,
    enable_resumable: Option<bool>,
    disable_first_episode: Option<bool>,
    next: Option<Episode>,
    i: int,
)
    requires
        call_ensures(
            next_in_series,
            (episodes, states, enable_resumable, disable_first_episode),
            next,
        ),
        enable_resumable is None || enable_resumable->0,
        0 <= i < episodes@.len(),
        is_begun(state_map(states@), episodes@[i]),
    ensures
        next is Some && is_begun(state_map(states@), next->0) && episodes@.contains(next->0),
{
    let ordered = in_watch_order(episodes@);
    let known = state_map(states@);
    assert(episodes@.len() == episodes.len());
    law_watch_order_holds_every_episode(episodes@, i);
    let k = choose|k: int| 0 <= k < ordered.len() && ordered[k] == episodes@[i];
    law_first_begun_episode_is_next(ordered, known, disable_first_episode == Some(true), k);
    let at = next_position(
        ordered,
        known,
        true,
        disable_first_episode == Some(true),
    )->0;
    law_watch_order_holds_every_episode(episodes@, at);
}

/// Where resuming is disabled and something was played, the answer is an episode that was not
/// played, and there is none where the last episode was played.
pub proof fn law_disabled_resuming_goes_on(
    episodes: &Vec<Episode>,
    states: &Vec<UserMediaState>,
    disable_first_episode: Option<bool>,
    next: Option<Episode>,
    i: int,
)
    requires
        call_ensures(next_in_series, (episodes, states, Some(false), disable_first_episode), next),
        0 <= i < episodes@.len(),
        is_done(state_map(states@), episodes@[i]),
    ensures
        next matches Some(e) ==> !is_done(state_map(states@), e) && episodes@.contains(e),
        next is None <==> is_done(
            state_map(states@),
            in_watch_order(episodes@)[episodes@.len() - 1],
        ),
{
    let ordered = in_watch_order(episodes@);
    let known = state_map(states@);
    let disabled = disable_first_episode == Some(true);
    assert(episodes@.len() == episodes.len());
    law_watch_order_holds_every_episode(episodes@, i);
    let k = choose|k: int| 0 <= k < ordered.len() && ordered[k] == episodes@[i];
    law_episode_behind_the_played_is_next(ordered, known, false, disabled, k);
    if next is Some {
        let at = next_position(ordered, known, false, disabled)->0;
        law_watch_order_holds_every_episode(episodes@, at);
    }
}

/// A series of which nothing was played or begun starts with an episode, unless the client disables
/// the first one.
pub proof fn law_first_episodes_come_unless_disabled(
    episodes: &Vec<Episode>,
    states: &Vec<UserMediaState>,
    enable_resumable: Option<bool>,
    disable_first_episode: Option<bool>,
    next: Option<Episode>,
)
    requires
        call_ensures(
            next_in_series,
            (episodes, states, enable_resumable, disable_first_episode),
            next,
        ),
        forall|k: int|
            0 <= k < episodes@.len() ==> !is_done(state_map(states@), #[trigger] episodes@[k])
                && !is_begun(state_map(states@), episodes@[k]),
    ensures
        next is Some <==> episodes@.len() > 0 && (disable_first_episode is None
            || !disable_first_episode->0),
{
    let ordered = in_watch_order(episodes@);
    let known = state_map(states@);
    let disabled = disable_first_episode == Some(true);
    assert(episodes@.len() == episodes.len());
    if episodes@.len() > 0 {
        law_watch_order_holds_every_episode(episodes@, 0);
    } else {
        crate::sequences::law_stable_order_exists(watch_keys(episodes@));
    }
    assert forall|k: int| 0 <= k < ordered.len() implies !is_done(known, #[trigger] ordered[k])
        && !is_begun(known, ordered[k]) by {
        law_watch_order_holds_every_episode(episodes@, k);
        let x = choose|x: int| 0 <= x < episodes@.len() && episodes@[x] == ordered[k];
        assert(!is_done(known, episodes@[x]));
    }
    law_unplayed_series_starts_at_its_first_season(
        ordered,
        known,
        enable_resumable != Some(false),
        disabled,
    );
}

/// A request for one series is looked up whatever the settings say; the list of all series is given
/// unless next episodes are shown among those to continue.
pub proof fn law_series_are_always_looked_up(
    series_id: Option<u128>,
    folded: Option<bool>,
    route: NextUpRoute,
)
    requires
        call_ensures(shows_nextup, (series_id, folded), route),
    ensures
        series_id matches Some(id) ==> route == NextUpRoute::Series(id),
        series_id is None && folded is Some && folded->0 ==> route is Folded,
        series_id is None && (folded is None || !folded->0) ==> route is All,
{
}

/// The answer for one series is its next episode alone, or nothing.
pub proof fn law_answer_for_one_series(
    next: Option<Episode>,
    answer: BaseItemDtoQueryResult<u128>,
)
    requires
        call_ensures(next_in_series_result, (next,), answer),
    ensures
        answer.items@.len() == answer.total_record_count,
        next is None ==> answer.items@.len() == 0,
        next matches Some(e) ==> answer.items@.len() == 1 && answer.items@[0] == e.id,
        answer.start_index == 0,
{
}

/// A page of next episodes says how many there are in all, whatever part of them it holds, and where
/// it starts, which is at zero where there is no candidate; no item is on it that does not exist.
pub proof fn law_answer_for_all_series(
    candidates: &Vec<Candidate>,
    items: &Vec<u128>,
    start: Option<u32>,
    limit: Option<u32>,
    page: BaseItemDtoQueryResult<usize>,
    i: int,
)
    requires
        call_ensures(shows_nextup_all, (candidates, items, start, limit), page),
    ensures
        page.total_record_count == items@.len(),
        page.items@.len() <= items@.len(),
        limit matches Some(n) ==> page.items@.len() <= n,
        0 <= i < page.items@.len() ==> page.items@[i] < items@.len(),
        candidates@.len() == 0 || start is None ==> page.start_index == 0,
        candidates@.len() > 0 && start is Some ==> page.start_index == start->0,
{
    let keys = crate::shows::place_keys(candidates@, items@);
    let order = crate::sequences::stable_order(keys);
    assert(items@.len() == items.len());
    crate::sequences::law_stable_order_exists(keys);
    let from = crate::query::or_zero(start) as int;
    let most = crate::shows::or_unlimited(limit) as int;
    if 0 <= i < page.items@.len() {
        assert(page.items@[i] == order[from + i]);
        assert(order[from + i] < keys.len());
    }
}

// ---------------------------------------------------------------------------------------------
// Episodes

/// A start item is located exactly if the client names one and does not say where to start by
/// number; it is located among all episodes, of which nothing is cut off.
pub proof fn law_start_items_are_located(item_id: u128, q: GetItemsQuery, r: EpisodesRequest)
    requires
        call_ensures(shows_episodes, (item_id, q), r),
    ensures
        r.locate is Some <==> q.start_item_id is Some && q.start_index is None,
        r.locate matches Some((id, all)) ==> {
            &&& q.start_item_id == Some(id)
            &&& all@.limit is None
            &&& all@.start_index is None
            &&& all@.start_item_id is None
            &&& all@.series_id == r.query@.series_id
            &&& all@.season_id == r.query@.season_id
            &&& all@.parent_id == r.query@.parent_id
            &&& all@.user_id == r.query@.user_id
            &&& all@.include_item_types == r.query@.include_item_types
            &&& all@.sort_by == r.query@.sort_by
            &&& all@.sort_order == r.query@.sort_order
        },
{
}

/// A request starts at the first place of the start item, and is left as it is where there is none.
pub proof fn law_requests_start_at_the_start_item(
    q: GetItemsQuery,
    ids: &Vec<u128>,
    start_id: u128,
    r: GetItemsQuery,
)
    requires
        call_ensures(start_at, (q, ids, start_id), r),
        ids@.len() <= u32::MAX,
    ensures
        !ids@.contains(start_id) ==> r@ == q@,
        ids@.contains(start_id) ==> {
            &&& r@.start_index matches Some(n)
            &&& n < ids@.len()
            &&& ids@[n as int] == start_id
            &&& forall|k: int| 0 <= k < n ==> #[trigger] ids@[k] != start_id
            &&& r@.limit == q@.limit
            &&& r@.series_id == q@.series_id
            &&& r@.season_id == q@.season_id
            &&& r@.sort_by == q@.sort_by
            &&& r@.sort_order == q@.sort_order
        },
{
    law_located_start_is_the_first(ids@, start_id);
}

/// Whether two lists that may be missing hold the same.
pub open spec fn same_list<T>(a: Option<Vec<T>>, b: Option<Vec<T>>) -> bool {
    &&& a is Some <==> b is Some
    &&& a is Some ==> a->0@ == b->0@
}

/// Whether a request asks for the same user, page, ids and options as another.
pub open spec fn same_options(a: GetItemsQuery, b: GetItemsQuery) -> bool {
    &&& a.user_id == b.user_id
    &&& a.season_id == b.season_id
    &&& a.enable_total_record_count == b.enable_total_record_count
    &&& a.enable_resumable == b.enable_resumable
    &&& a.disable_first_episode == b.disable_first_episode
    &&& a.next_up_date_cutoff is Some <==> b.next_up_date_cutoff is Some
    &&& a.next_up_date_cutoff is Some ==> a.next_up_date_cutoff->0@ == b.next_up_date_cutoff->0@
}

/// A request for the seasons of a show is what the client asked for, about the show, for seasons,
/// and sorted by number where the client does not sort.
pub proof fn law_answer_on_seasons(item_id: u128, q: GetItemsQuery, r: GetItemsQuery)
    requires
        call_ensures(shows_seasons, (item_id, q), r),
    ensures
        same_options(r, q),
        r.parent_id == Some(item_id),
        r.series_id == q.series_id,
        same_list(r.ids, q.ids),
        r.start_index == q.start_index,
        r.limit == q.limit,
        r.start_item_id == q.start_item_id,
        r.strict_item_filters == q.strict_item_filters,
        r.include_item_types matches Some(types) && types@.len() == 1 && types@[0] is Season,
        q.sort_by is Some ==> same_list(r.sort_by, q.sort_by) && same_list(
            r.sort_order,
            q.sort_order,
        ),
        q.sort_by is None ==> {
            &&& r.sort_by matches Some(by)
            &&& by@.len() == 1 && by@[0] is IndexNumber
            &&& r.sort_order matches Some(order)
            &&& order@.len() == 1 && order@[0] is Ascending
        },
{
    crate::request_laws::law_request_for_seasons(item_id, q@);
}

/// A request for the episodes of a show is what the client asked for, about the show unless it names
/// a season, for episodes, and sorted by season and number where the client does not sort.
pub proof fn law_answer_on_episodes(item_id: u128, q: GetItemsQuery, r: EpisodesRequest)
    requires
        call_ensures(shows_episodes, (item_id, q), r),
    ensures
        same_options(r.query, q),
        r.query.parent_id == q.parent_id,
        q.season_id is None ==> r.query.series_id == Some(item_id),
        q.season_id is Some ==> r.query.series_id == q.series_id,
        same_list(r.query.ids, q.ids),
        r.query.start_index == q.start_index,
        r.query.limit == q.limit,
        r.query.start_item_id is None,
        r.query.strict_item_filters == q.strict_item_filters,
        r.query.include_item_types matches Some(types) && types@.len() == 1
            && types@[0] is Episode,
        q.sort_by is Some ==> same_list(r.query.sort_by, q.sort_by) && same_list(
            r.query.sort_order,
            q.sort_order,
        ),
        q.sort_by is None ==> {
            &&& r.query.sort_by matches Some(by)
            &&& by@.len() == 2 && by@[0] is ParentIndexNumber && by@[1] is IndexNumber
            &&& r.query.sort_order matches Some(order)
            &&& order@.len() == 1 && order@[0] is Ascending
        },
{
    crate::request_laws::law_request_for_episodes(item_id, q@);
}

/// The request for the items of candidates names each of them in order, and is otherwise what the
/// client asked for, without its page.
pub proof fn law_answer_on_items_of_candidates(
    q: GetItemsQuery,
    candidates: &Vec<Candidate>,
    r: GetItemsQuery,
    i: int,
)
    requires
        call_ensures(nextup_items_query, (q, candidates), r),
    ensures
        same_options(r, q),
        r.ids matches Some(ids) && ids@.len() == candidates@.len() && (0 <= i < candidates@.len()
            ==> ids@[i] == candidates@[i].episode.id),
        r.include_item_types matches Some(types) && types@.len() == 1 && types@[0] is Episode,
        r.strict_item_filters,
        r.start_index is None,
        r.limit is Some,
        r.parent_id == q.parent_id,
        r.series_id == q.series_id,
        r.start_item_id == q.start_item_id,
        same_list(r.sort_by, q.sort_by),
        same_list(r.sort_order, q.sort_order),
{
    crate::request_laws::law_request_for_candidates(q@, candidates@, i);
}

/// The filter for upcoming episodes passes episodes that are released today or later, soonest first,
/// narrowed by what the parent is and by the policy of the user.
pub proof fn law_answer_on_upcoming_episodes(
    q: &GetItemsQuery,
    session_user_id: u128,
    scope: ParentScope,
    members: Vec<u128>,
    policy: Option<UserPolicy>,
    now: Timestamp,
    f: MediaFilter,
)
    requires
        call_ensures(shows_upcoming, (q, session_user_id, scope, members, policy, now), f),
        now.secs >= i64::MIN + 86_400,
    ensures
        f.kind matches Some(kinds) && kinds@.len() == 1 && kinds@[0] is Episode,
        f.released_after matches Some(t) && t.nanos == 0 && t.secs % 86_400 == 0 && t.secs
            <= now.secs && now.secs < t.secs + 86_400,
        f.digital_released_before is None,
        f.limit == q.limit,
        f.offset == q.start_index,
        f.include_user_state,
        f.user_id == (if q.user_id is Some {
            q.user_id
        } else {
            Some(session_user_id)
        }),
        f.sort_by@.len() == 1 && f.sort_by@[0] is PremiereDate,
        f.sort_order@.len() == 1 && f.sort_order@[0] is Ascending,
        f.total_count <==> q.enable_total_record_count is None || q.enable_total_record_count->0,
        f.parent_id is Some <==> scope is Season,
        scope matches ParentScope::Season(id) ==> f.parent_id == Some(id),
        f.grandparent_id is Some <==> scope is Series,
        scope matches ParentScope::Series(id) ==> f.grandparent_id == Some(id),
        f.grandparent_ids is Some <==> scope is Collection,
        scope is Collection ==> f.grandparent_ids->0@ == members@,
        policy is None ==> f.max_parental_rating is None && f.blocked_tags is None
            && f.allowed_tags is None && !f.policy_filter,
        policy matches Some(p) ==> {
            &&& f.max_parental_rating == p.max_parental_rating
            &&& f.policy_filter == p.has_filter_rules
            &&& f.blocked_tags is Some <==> p.blocked_tags@.len() > 0
            &&& f.blocked_tags is Some ==> f.blocked_tags->0@ == p.blocked_tags@
            &&& f.allowed_tags is Some <==> p.allowed_tags@.len() > 0
            &&& f.allowed_tags is Some ==> f.allowed_tags->0@ == p.allowed_tags@
        },
{
    crate::request_laws::law_filter_for_upcoming_episodes(
        q@,
        session_user_id,
        scope,
        members@,
        policy,
        now,
    );
}

// ---------------------------------------------------------------------------------------------
// Recommendations

/// Recommendations are series, under the parent that the client names, for the user it names or the
/// one of the session; as many as it asks for, and five categories of eight items where it does not
/// say.
pub proof fn law_answer_on_recommendations(
    q: GetShowRecommendationsQuery,
    session_user_id: u128,
    r: RecommendationRequest,
)
    requires
        call_ensures(shows_recommendations, (q, session_user_id), r),
    ensures
        r.kind is Series,
        r.parent_id == q.parent_id,
        q.user_id matches Some(id) ==> r.user_id == id,
        q.user_id is None ==> r.user_id == session_user_id,
        q.category_limit matches Some(n) ==> r.category_limit == n,
        q.category_limit is None ==> r.category_limit == 5,
        q.item_limit matches Some(n) ==> r.item_limit == n,
        q.item_limit is None ==> r.item_limit == 8,
{
}

// ---------------------------------------------------------------------------------------------
// Searches

/// A movie is searched for exactly if there is a provider and a name that is not empty, by that name
/// and by the year that the client gives.
pub proof fn law_movies_are_searched_by_name_and_year(
    info: Option<SearchInfo>,
    has_client: bool,
    r: Option<ProviderSearch>,
)
    requires
        call_ensures(remote_search_movie, (info, has_client), r),
    ensures
        r is Some <==> has_client && info is Some && (info->0).name is Some && (
        info->0).name->0@.len() > 0,
        r matches Some(search) ==> search.query@ == (info->0).name->0@ && search.year == (
        info->0).year,
{
}

/// A series is searched for where a movie would be, and by the name alone.
pub proof fn law_series_are_searched_by_name(
    info: Option<SearchInfo>,
    has_client: bool,
    r: Option<ProviderSearch>,
)
    requires
        call_ensures(remote_search_series, (info, has_client), r),
    ensures
        r is Some <==> has_client && info is Some && (info->0).name is Some && (
        info->0).name->0@.len() > 0,
        r matches Some(search) ==> search.query@ == (info->0).name->0@ && search.year is None,
{
}

/// Where the item exists and the picked result names an IMDb id that is not empty, the item has that
/// id in the end, whatever it had before; likewise for numbers at TMDB and TVDB. What the result does
/// not name stays. Without the item there is nothing to apply to.
pub proof fn law_answer_on_applied_results(
    media: Option<ExternalIds>,
    provider_ids: &Option<ProviderIds>,
    r: Result<ExternalIds, ApiError>,
    text: Seq<char>,
)
    requires
        call_ensures(remote_search_apply, (media, provider_ids), r),
    ensures
        media is None ==> r is Err && r->Err_0 is ItemNotFound,
        media is Some ==> r is Ok,
        media is Some && *provider_ids is None ==> r->Ok_0@ == media->0@,
        media is Some && *provider_ids is Some ==> ({
            let was = media->0@;
            let now = r->Ok_0@;
            let ids = (*provider_ids)->0@;
            &&& ids.dom().contains("Imdb"@) && ids["Imdb"@] == text && text.len() > 0 ==> now.imdb
                == Some(text)
            &&& ids.dom().contains("Imdb"@) && ids["Imdb"@].len() == 0 ==> now.imdb is None
            &&& !ids.dom().contains("Imdb"@) ==> now.imdb == was.imdb
            &&& ids.dom().contains("Tmdb"@) && parsed_i64(ids["Tmdb"@]) is Some
                ==> now.tmdb == parsed_i64(ids["Tmdb"@])
            &&& !ids.dom().contains("Tmdb"@) || parsed_i64(ids["Tmdb"@]) is None
                ==> now.tmdb == was.tmdb
            &&& ids.dom().contains("Tvdb"@) && parsed_i64(ids["Tvdb"@]) is Some
                ==> now.tvdb == parsed_i64(ids["Tvdb"@])
            &&& !ids.dom().contains("Tvdb"@) || parsed_i64(ids["Tvdb"@]) is None
                ==> now.tvdb == was.tvdb
        }),
{
}

/// Subtitles are found for every item that exists: no more than addons offer, and those of the
/// wanted language only; none where the item does not exist.
pub proof fn law_answer_on_subtitles(
    offered: &Option<Vec<SubtitleSource>>,
    language: &str,
    two: Option<String>,
    r: Result<Vec<FoundSubtitle>, ApiError>,
)
    requires
        call_ensures(search_remote_subtitles, (offered, language, two), r),
    ensures
        *offered is None ==> r is Err && r->Err_0 is ItemNotFound,
        *offered is Some ==> r is Ok && r->Ok_0@.len() <= (*offered)->0@.len(),
{
    if let Some(subs) = *offered {
        let wanted = crate::subtitles::wanted_language(
            language@,
            crate::text::characters(two),
        );
        let pred = crate::subtitles::in_language(wanted);
        subs@.lemma_filter_len(pred);
        crate::request_laws::law_every_kept_subtitle_is_found(
            r->Ok_0@,
            subs@.filter(pred),
            0,
        );
    }
}

} // verus!

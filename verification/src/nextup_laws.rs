//! What holds of every next episode.

use vstd::prelude::*;

use crate::activity::ActiveSeries;
use crate::nextup::{
    candidate_keys, candidate_position, effective_time, has_position, in_progress, in_progress_at,
    in_watch_order, index_or_last, last_played, next_position, of_series, played, played_at,
    regular_at, release_time, resumable, series_candidate, sorted_candidates, state_map,
    unsorted_candidates, watch_keys, Candidate, Episode, UserMediaState,
};
use crate::sequences::{
    key_below, law_stable_order_exists, law_stable_order_lists_every_position, lemma_first_where,
    lemma_first_where_agrees, lemma_last_position_is_inserted, lemma_last_where,
    lemma_last_where_agrees, precedes, stable_order, SortKey,
};

verus! {

// ---------------------------------------------------------------------------------------------
// Watch order

/// Watch order lists every episode, by season and then by number.
pub proof fn law_watch_order_is_sorted(episodes: Seq<Episode>, i: int, j: int)
    requires
        episodes.len() <= usize::MAX,
        0 <= i < j < episodes.len(),
    ensures
        in_watch_order(episodes).len() == episodes.len(),
        ({
            let a = in_watch_order(episodes)[i];
            let b = in_watch_order(episodes)[j];
            ||| index_or_last(a.parent_idx) < index_or_last(b.parent_idx)
            ||| index_or_last(a.parent_idx) == index_or_last(b.parent_idx) && index_or_last(a.idx)
                <= index_or_last(b.idx)
        }),
        episodes.contains(in_watch_order(episodes)[i]),
        in_watch_order(episodes).contains(episodes[i]),
{
    let keys = watch_keys(episodes);
    let order = stable_order(keys);
    law_stable_order_exists(keys);
    assert(precedes(keys, order[i], order[j]));
    lemma_given_episode_is_ordered(episodes, i);
}

proof fn lemma_ordered_episode_is_given(episodes: Seq<Episode>, e: Episode)
    requires
        episodes.len() <= usize::MAX,
        in_watch_order(episodes).contains(e),
    ensures
        episodes.contains(e),
{
    let keys = watch_keys(episodes);
    let order = stable_order(keys);
    law_stable_order_exists(keys);
    let ordered = in_watch_order(episodes);
    let i = choose|i: int| 0 <= i < ordered.len() && ordered[i] == e;
    assert(order[i] < keys.len());
    assert(episodes[order[i] as int] == e);
}

proof fn lemma_given_episode_is_ordered(episodes: Seq<Episode>, i: int)
    requires
        episodes.len() <= usize::MAX,
        0 <= i < episodes.len(),
    ensures
        in_watch_order(episodes).contains(episodes[i]),
{
    let keys = watch_keys(episodes);
    let order = stable_order(keys);
    law_stable_order_exists(keys);
    law_stable_order_lists_every_position(keys, order, i as usize);
    let k = choose|k: int| 0 <= k < order.len() && order[k] == i as usize;
    assert(in_watch_order(episodes)[k] == episodes[i]);
}

/// The key of one episode in the watch order.
spec fn watch_key(e: Episode) -> SortKey {
    SortKey {
        major: index_or_last(e.parent_idx) as i128,
        minor: index_or_last(e.idx) as i128,
    }
}

/// Whether `at` is the place of `e` among `ordered`.
spec fn is_place(ordered: Seq<Episode>, e: Episode, at: int) -> bool {
    &&& 0 <= at <= ordered.len()
    &&& forall|k: int|
        0 <= k < at ==> !key_below(watch_key(e), watch_key(#[trigger] ordered[k]))
    &&& forall|k: int|
        at <= k < ordered.len() ==> key_below(watch_key(e), watch_key(#[trigger] ordered[k]))
}

proof fn lemma_last_episode_takes_its_place(episodes: Seq<Episode>) -> (at: int)
    requires
        0 < episodes.len() <= usize::MAX,
    ensures
        is_place(in_watch_order(episodes.drop_last()), episodes.last(), at),
        in_watch_order(episodes) == in_watch_order(episodes.drop_last()).insert(
            at,
            episodes.last(),
        ),
{
    let front = episodes.drop_last();
    let keys = watch_keys(episodes);
    let before = stable_order(watch_keys(front));
    assert(keys.drop_last() =~= watch_keys(front));
    let at = lemma_last_position_is_inserted(keys);
    law_stable_order_exists(watch_keys(front));
    let ordered = in_watch_order(front);
    assert forall|k: int| 0 <= k < ordered.len() implies watch_key(#[trigger] ordered[k])
        == keys[before[k] as int] by {
        assert(before[k] < front.len());
    }
    assert forall|k: int| 0 <= k < at implies !key_below(
        watch_key(episodes.last()),
        watch_key(#[trigger] ordered[k]),
    ) by {
        assert(!key_below(keys.last(), keys[before[k] as int]));
    }
    assert forall|k: int| at <= k < ordered.len() implies key_below(
        watch_key(episodes.last()),
        watch_key(#[trigger] ordered[k]),
    ) by {
        assert(key_below(keys.last(), keys[before[k] as int]));
    }
    let order = stable_order(keys);
    let wider = ordered.insert(at, episodes.last());
    assert forall|k: int| 0 <= k < wider.len() implies in_watch_order(episodes)[k]
        == #[trigger] wider[k] by {
        if k < at {
            assert(order[k] == before[k]);
            assert(before[k] < front.len());
        } else if k > at {
            assert(order[k] == before[k - 1]);
            assert(before[k - 1] < front.len());
        }
    }
    assert(in_watch_order(episodes) =~= wider);
    at
}

/// Ordering episodes and leaving some of them out can be done in either order: the episodes of one
/// series stand among those of all series as they stand on their own.
pub proof fn law_watch_order_of_a_part(episodes: Seq<Episode>, part: spec_fn(Episode) -> bool)
    requires
        episodes.len() <= usize::MAX,
    ensures
        in_watch_order(episodes).filter(part) == in_watch_order(episodes.filter(part)),
    decreases episodes.len(),
{
    reveal(Seq::filter);
    if episodes.len() == 0 {
        law_stable_order_exists(watch_keys(episodes));
        assert(episodes.filter(part) =~= episodes);
        assert(in_watch_order(episodes) =~= Seq::<Episode>::empty());
        assert(in_watch_order(episodes).filter(part) =~= Seq::<Episode>::empty());
    } else {
        let front = episodes.drop_last();
        let e = episodes.last();
        law_watch_order_of_a_part(front, part);
        let ordered = in_watch_order(front);
        let at = lemma_last_episode_takes_its_place(episodes);
        let head = ordered.take(at);
        let tail = ordered.skip(at);
        assert(episodes =~= front.push(e));
        front.lemma_filter_push(e, part);
        assert(ordered =~= head + tail);
        assert(ordered.insert(at, e) =~= head.push(e) + tail);
        Seq::filter_distributes_over_add(head, tail, part);
        Seq::filter_distributes_over_add(head.push(e), tail, part);
        head.lemma_filter_push(e, part);
        if part(e) {
            let own = front.filter(part);
            front.lemma_filter_len(part);
            assert(episodes.filter(part).drop_last() =~= own);
            episodes.lemma_filter_len(part);
            let there = lemma_last_episode_takes_its_place(episodes.filter(part));
            let kept = in_watch_order(own);
            let before = head.filter(part);
            let behind = tail.filter(part);
            assert(kept == before + behind);
            if there < before.len() {
                assert(kept[there] == before[there]);
                assert(before.contains(before[there]));
                head.lemma_filter_contains_rev(part, before[there]);
                let k = choose|k: int| 0 <= k < head.len() && head[k] == before[there];
                assert(ordered[k] == kept[there]);
                assert(false);
            }
            if there > before.len() {
                let first = behind[0];
                assert(kept[before.len() as int] == first);
                assert(behind.contains(first));
                tail.lemma_filter_contains_rev(part, first);
                let k = choose|k: int| 0 <= k < tail.len() && tail[k] == first;
                assert(ordered[at + k] == kept[before.len() as int]);
                assert(false);
            }
            assert(kept.insert(there, e) =~= before.push(e) + behind);
        }
    }
}

// ---------------------------------------------------------------------------------------------
// One series

/// Where resuming is enabled, the first episode under way comes before everything else.
pub proof fn law_episode_under_way_comes_first(
    episodes: Seq<Episode>,
    states: Map<u128, UserMediaState>,
    disable_first: bool,
    i: int,
)
    requires
        0 <= i < episodes.len(),
        in_progress(states, episodes[i]),
    ensures
        next_position(episodes, states, true, disable_first) matches Some(at) && 0 <= at <= i
            && in_progress(states, episodes[at]) && forall|k: int|
            0 <= k < at ==> !in_progress(states, #[trigger] episodes[k]),
{
    let p = in_progress_at(episodes, states);
    lemma_first_where(p, 0, episodes.len() as int);
    assert(p(i));
    assert forall|k: int| 0 <= k < resumable(episodes, states)->0 implies !in_progress(
        states,
        #[trigger] episodes[k],
    ) by {
        assert(!p(k));
    }
}

/// Else, once something was played, the next episode is the one directly behind the last played;
/// nothing from there on was played. There is none behind the last episode.
pub proof fn law_next_follows_the_last_played(
    episodes: Seq<Episode>,
    states: Map<u128, UserMediaState>,
    enable_resumable: bool,
    disable_first: bool,
    i: int,
)
    requires
        0 <= i < episodes.len(),
        played(states, episodes[i]),
        enable_resumable ==> forall|k: int|
            0 <= k < episodes.len() ==> !in_progress(states, #[trigger] episodes[k]),
    ensures
        match next_position(episodes, states, enable_resumable, disable_first) {
            Some(at) => {
                &&& i < at < episodes.len()
                &&& played(states, episodes[at - 1])
                &&& forall|k: int|
                    at <= k < episodes.len() ==> !played(states, #[trigger] episodes[k])
            },
            None => played(states, episodes.last()),
        },
{
    let p = in_progress_at(episodes, states);
    let q = played_at(episodes, states);
    lemma_first_where(p, 0, episodes.len() as int);
    lemma_last_where(q, episodes.len() as int);
    assert(q(i));
    let at = last_played(episodes, states)->0;
    assert forall|k: int| at < k < episodes.len() implies !played(
        states,
        #[trigger] episodes[k],
    ) by {
        assert(!q(k));
    }
    if enable_resumable && resumable(episodes, states) is Some {
        assert(p(resumable(episodes, states)->0));
    }
}

/// Where nothing was watched, the next episode is the first that is not of season zero, else the
/// first; none where the first episode is disabled.
pub proof fn law_unwatched_series_starts_with_a_regular_episode(
    episodes: Seq<Episode>,
    states: Map<u128, UserMediaState>,
    enable_resumable: bool,
    disable_first: bool,
)
    requires
        episodes.len() > 0,
        forall|k: int|
            0 <= k < episodes.len() ==> !in_progress(states, #[trigger] episodes[k]) && !played(
                states,
                episodes[k],
            ),
    ensures
        disable_first ==> next_position(episodes, states, enable_resumable, disable_first) is None,
        !disable_first ==> (next_position(
            episodes,
            states,
            enable_resumable,
            disable_first,
        ) matches Some(at) && 0 <= at < episodes.len() && (regular_at(episodes)(at) || at == 0)
            && forall|k: int| 0 <= k < at ==> !#[trigger] regular_at(episodes)(k)),
        !disable_first && (exists|k: int|
            0 <= k < episodes.len() && #[trigger] regular_at(episodes)(k)) ==> regular_at(episodes)(
            next_position(episodes, states, enable_resumable, disable_first)->0,
        ),
{
    let p = in_progress_at(episodes, states);
    let q = played_at(episodes, states);
    let r = regular_at(episodes);
    lemma_first_where(p, 0, episodes.len() as int);
    lemma_last_where(q, episodes.len() as int);
    lemma_first_where(r, 0, episodes.len() as int);
    if resumable(episodes, states) is Some {
        assert(p(resumable(episodes, states)->0));
    }
    if last_played(episodes, states) is Some {
        assert(q(last_played(episodes, states)->0));
    }
}

/// With resuming enabled, the list of all series takes the same episode of a started series as the
/// lookup of that series alone.
pub proof fn law_both_lookups_agree(
    episodes: Seq<Episode>,
    states: Map<u128, UserMediaState>,
    disable_first: bool,
)
    ensures
        candidate_position(episodes, states, true) == next_position(episodes, states, true, true),
        resumable(episodes, states) is Some || last_played(episodes, states) is Some
            ==> candidate_position(episodes, states, true) == next_position(
            episodes,
            states,
            true,
            disable_first,
        ),
{
}

/// With resuming disabled, an episode that the user stands within is never listed.
pub proof fn law_started_episode_is_not_listed_without_resuming(
    episodes: Seq<Episode>,
    states: Map<u128, UserMediaState>,
)
    ensures
        candidate_position(episodes, states, false) matches Some(at) ==> !has_position(
            states,
            episodes[at],
        ),
{
}

// ---------------------------------------------------------------------------------------------
// All series

/// A candidate is one of the episodes.
pub proof fn lemma_candidate_position_in_range(
    episodes: Seq<Episode>,
    states: Map<u128, UserMediaState>,
    enable_resumable: bool,
)
    ensures
        candidate_position(episodes, states, enable_resumable) matches Some(at) ==> 0 <= at
            < episodes.len(),
{
    lemma_first_where(in_progress_at(episodes, states), 0, episodes.len() as int);
    lemma_last_where(played_at(episodes, states), episodes.len() as int);
}

/// A candidate comes from one of the series.
pub proof fn lemma_candidates_have_series(
    series: Seq<ActiveSeries>,
    f: spec_fn(ActiveSeries) -> Option<Candidate>,
    c: Candidate,
)
    requires
        series.filter_map(f).contains(c),
    ensures
        exists|k: int| 0 <= k < series.len() && f(#[trigger] series[k]) == Some(c),
{
    series.lemma_filter_map_contains(f, c);
    let s = choose|s: ActiveSeries| #[trigger] series.contains(s) && f(s) == Some(c);
    let k = choose|k: int| 0 <= k < series.len() && series[k] == s;
    assert(f(series[k]) == Some(c));
}

/// There are no more candidates than series.
pub proof fn lemma_no_more_candidates_than_series(
    series: Seq<ActiveSeries>,
    f: spec_fn(ActiveSeries) -> Option<Candidate>,
)
    ensures
        series.filter_map(f).len() <= series.len(),
    decreases series.len(),
{
    reveal(Seq::filter_map);
    if series.len() > 0 {
        lemma_no_more_candidates_than_series(series.drop_last(), f);
    }
}

/// Each listed episode is one of the given ones and belongs to a series that the user is watching;
/// it is listed by its release or by the last activity in that series, whichever is later. So an
/// episode that was left out of the given ones, such as one that is not released yet, is never
/// listed.
pub proof fn law_listed_episodes_are_given(
    series: Seq<ActiveSeries>,
    episodes: Seq<Episode>,
    states: Seq<UserMediaState>,
    enable_resumable: bool,
    i: int,
)
    requires
        series.len() <= usize::MAX,
        episodes.len() <= usize::MAX,
        0 <= i < sorted_candidates(series, episodes, states, enable_resumable).len(),
    ensures
        ({
            let c = sorted_candidates(series, episodes, states, enable_resumable)[i];
            &&& episodes.contains(c.episode)
            &&& exists|k: int|
                0 <= k < series.len() && c.episode.series_id == Some(
                    (#[trigger] series[k]).series_id,
                ) && c.effective == effective_time(c.episode, series[k].last_activity)
            &&& !c.effective.earlier(release_time(c.episode))
        }),
{
    let ordered = in_watch_order(episodes);
    let known = state_map(states);
    let f = series_candidate(ordered, known, enable_resumable);
    let found = unsorted_candidates(series, episodes, states, enable_resumable);
    let keys = candidate_keys(found);
    let order = stable_order(keys);
    lemma_no_more_candidates_than_series(series, f);
    law_stable_order_exists(keys);
    assert(order[i] < keys.len());
    let c = found[order[i] as int];
    assert(found.contains(c));
    lemma_candidates_have_series(series, f, c);
    let k = choose|k: int| 0 <= k < series.len() && f(#[trigger] series[k]) == Some(c);
    let pred = of_series(series[k].series_id);
    let own = ordered.filter(pred);
    lemma_candidate_position_in_range(own, known, enable_resumable);
    let at = candidate_position(own, known, enable_resumable)->0;
    ordered.lemma_filter_pred(pred, at);
    ordered.lemma_filter_contains_rev(pred, own[at]);
    lemma_ordered_episode_is_given(episodes, c.episode);
}

/// The list runs from the latest point in time to the earliest, so a fresh episode of a series
/// watched long ago comes before an older one of a series watched since.
pub proof fn law_list_runs_from_the_latest(
    series: Seq<ActiveSeries>,
    episodes: Seq<Episode>,
    states: Seq<UserMediaState>,
    enable_resumable: bool,
    i: int,
    j: int,
)
    requires
        series.len() <= usize::MAX,
        0 <= i < j < sorted_candidates(series, episodes, states, enable_resumable).len(),
    ensures
        !sorted_candidates(series, episodes, states, enable_resumable)[i].effective.earlier(
            sorted_candidates(series, episodes, states, enable_resumable)[j].effective,
        ),
{
    let f = series_candidate(in_watch_order(episodes), state_map(states), enable_resumable);
    let found = unsorted_candidates(series, episodes, states, enable_resumable);
    let keys = candidate_keys(found);
    let order = stable_order(keys);
    lemma_no_more_candidates_than_series(series, f);
    law_stable_order_exists(keys);
    assert(order[i] < keys.len() && order[j] < keys.len());
    assert(precedes(keys, order[i], order[j]));
}

/// There is at most one listed episode for each series.
pub proof fn law_one_episode_for_each_series(
    series: Seq<ActiveSeries>,
    episodes: Seq<Episode>,
    states: Seq<UserMediaState>,
    enable_resumable: bool,
)
    requires
        series.len() <= usize::MAX,
        forall|i: int, j: int|
            0 <= i < j < series.len() ==> (#[trigger] series[i]).series_id != (
            #[trigger] series[j]).series_id,
    ensures
        ({
            let list = sorted_candidates(series, episodes, states, enable_resumable);
            &&& list.len() <= series.len()
            &&& forall|i: int, j: int|
                0 <= i < j < list.len() ==> (#[trigger] list[i]).episode.series_id != (
                #[trigger] list[j]).episode.series_id
        }),
{
    let ordered = in_watch_order(episodes);
    let known = state_map(states);
    let f = series_candidate(ordered, known, enable_resumable);
    let found = unsorted_candidates(series, episodes, states, enable_resumable);
    let keys = candidate_keys(found);
    let order = stable_order(keys);
    let list = sorted_candidates(series, episodes, states, enable_resumable);
    lemma_no_more_candidates_than_series(series, f);
    law_stable_order_exists(keys);
    lemma_found_series_are_distinct(series, ordered, known, enable_resumable);
    assert forall|i: int, j: int| 0 <= i < j < list.len() implies (
    #[trigger] list[i]).episode.series_id != (#[trigger] list[j]).episode.series_id by {
        assert(order[i] < keys.len() && order[j] < keys.len());
        assert(precedes(keys, order[i], order[j]));
        let a = order[i] as int;
        let b = order[j] as int;
        assert(found[a].episode.series_id != found[b].episode.series_id);
    }
}

/// A candidate belongs to its series.
pub proof fn lemma_candidate_is_of_series(
    ordered: Seq<Episode>,
    known: Map<u128, UserMediaState>,
    enable_resumable: bool,
    s: ActiveSeries,
)
    ensures
        series_candidate(ordered, known, enable_resumable)(s) matches Some(c)
            ==> c.episode.series_id == Some(s.series_id),
{
    let pred = of_series(s.series_id);
    let own = ordered.filter(pred);
    lemma_candidate_position_in_range(own, known, enable_resumable);
    if candidate_position(own, known, enable_resumable) is Some {
        ordered.lemma_filter_pred(pred, candidate_position(own, known, enable_resumable)->0);
    }
}

proof fn lemma_found_series_are_distinct(
    series: Seq<ActiveSeries>,
    ordered: Seq<Episode>,
    known: Map<u128, UserMediaState>,
    enable_resumable: bool,
)
    requires
        forall|i: int, j: int|
            0 <= i < j < series.len() ==> (#[trigger] series[i]).series_id != (
            #[trigger] series[j]).series_id,
    ensures
        ({
            let found = series.filter_map(series_candidate(ordered, known, enable_resumable));
            forall|a: int, b: int|
                0 <= a < found.len() && 0 <= b < found.len() && a != b ==> (
                #[trigger] found[a]).episode.series_id != (#[trigger] found[b]).episode.series_id
        }),
    decreases series.len(),
{
    reveal(Seq::filter_map);
    if series.len() > 0 {
        let f = series_candidate(ordered, known, enable_resumable);
        let front = series.drop_last();
        let s = series.last();
        assert forall|i: int, j: int| 0 <= i < j < front.len() implies (
        #[trigger] front[i]).series_id != (#[trigger] front[j]).series_id by {
            assert(series[i].series_id != series[j].series_id);
        }
        lemma_found_series_are_distinct(front, ordered, known, enable_resumable);
        lemma_candidate_is_of_series(ordered, known, enable_resumable, s);
        let early = front.filter_map(f);
        assert forall|a: int| 0 <= a < early.len() implies (
        #[trigger] early[a]).episode.series_id != Some(s.series_id) by {
            assert(early.contains(early[a]));
            lemma_candidates_have_series(front, f, early[a]);
            let k = choose|k: int| 0 <= k < front.len() && f(#[trigger] front[k]) == Some(early[a]);
            lemma_candidate_is_of_series(ordered, known, enable_resumable, front[k]);
            assert(series[k].series_id != series[series.len() - 1].series_id);
        }
    }
}

// ---------------------------------------------------------------------------------------------
// One series and all series

/// Whether two collections of played states say the same of each of `episodes`.
pub open spec fn same_states(
    a: Map<u128, UserMediaState>,
    b: Map<u128, UserMediaState>,
    episodes: Seq<Episode>,
) -> bool {
    forall|i: int|
        0 <= i < episodes.len() ==> {
            &&& a.dom().contains((#[trigger] episodes[i]).id) == b.dom().contains(episodes[i].id)
            &&& a.dom().contains(episodes[i].id) ==> a[episodes[i].id] == b[episodes[i].id]
        }
}

proof fn lemma_same_states_same_position(
    episodes: Seq<Episode>,
    a: Map<u128, UserMediaState>,
    b: Map<u128, UserMediaState>,
    disable_first: bool,
)
    requires
        same_states(a, b, episodes),
    ensures
        resumable(episodes, a) == resumable(episodes, b),
        last_played(episodes, a) == last_played(episodes, b),
        next_position(episodes, a, true, disable_first) == next_position(
            episodes,
            b,
            true,
            disable_first,
        ),
{
    let n = episodes.len() as int;
    assert forall|i: int| 0 <= i < n implies #[trigger] in_progress_at(episodes, a)(i)
        == in_progress_at(episodes, b)(i) by {
        assert(episodes[i] == episodes[i]);
    }
    assert forall|i: int| 0 <= i < n implies #[trigger] played_at(episodes, a)(i) == played_at(
        episodes,
        b,
    )(i) by {
        assert(episodes[i] == episodes[i]);
    }
    lemma_first_where_agrees(in_progress_at(episodes, a), in_progress_at(episodes, b), 0, n);
    lemma_last_where_agrees(played_at(episodes, a), played_at(episodes, b), n);
}

proof fn lemma_candidate_is_found(
    series: Seq<ActiveSeries>,
    f: spec_fn(ActiveSeries) -> Option<Candidate>,
    k: int,
)
    requires
        0 <= k < series.len(),
        f(series[k]) is Some,
    ensures
        series.filter_map(f).contains(f(series[k])->0),
    decreases series.len(),
{
    reveal(Seq::filter_map);
    let front = series.drop_last();
    let early = front.filter_map(f);
    let found = series.filter_map(f);
    if k < front.len() {
        lemma_candidate_is_found(front, f, k);
        let i = choose|i: int| 0 <= i < early.len() && early[i] == f(front[k])->0;
        assert(found[i] == early[i]);
    } else {
        assert(found[early.len() as int] == f(series[k])->0);
    }
}

/// The candidate of every series is listed.
pub proof fn lemma_every_candidate_is_listed(
    series: Seq<ActiveSeries>,
    episodes: Seq<Episode>,
    states: Seq<UserMediaState>,
    enable_resumable: bool,
    k: int,
)
    requires
        series.len() <= usize::MAX,
        0 <= k < series.len(),
    ensures
        series_candidate(in_watch_order(episodes), state_map(states), enable_resumable)(
            series[k],
        ) matches Some(c) ==> sorted_candidates(
            series,
            episodes,
            states,
            enable_resumable,
        ).contains(c),
{
    let f = series_candidate(in_watch_order(episodes), state_map(states), enable_resumable);
    if f(series[k]) is Some {
        let c = f(series[k])->0;
        let found = unsorted_candidates(series, episodes, states, enable_resumable);
        let keys = candidate_keys(found);
        lemma_candidate_is_found(series, f, k);
        let at = choose|at: int| 0 <= at < found.len() && found[at] == c;
        lemma_no_more_candidates_than_series(series, f);
        law_stable_order_exists(keys);
        law_stable_order_lists_every_position(keys, stable_order(keys), at as usize);
        let order = stable_order(keys);
        let i = choose|i: int| 0 <= i < order.len() && order[i] == at as usize;
        assert(sorted_candidates(series, episodes, states, enable_resumable)[i] == c);
    }
}

/// With resuming enabled, the list of all series and the lookup of one of them agree. Where the
/// lookup finds an episode, the list holds that episode, by its release or by the last activity in
/// the series, and no other of the series; where it finds none, the list holds none of the series.
/// A series that was not started counts only where its first episode is disabled: the list never
/// holds that one. The lookup may know the states of the episodes of its series alone.
pub proof fn law_list_agrees_with_lookup(
    series: Seq<ActiveSeries>,
    episodes: Seq<Episode>,
    states: Seq<UserMediaState>,
    own_states: Seq<UserMediaState>,
    disable_first: bool,
    k: int,
)
    requires
        series.len() <= usize::MAX,
        episodes.len() <= usize::MAX,
        0 <= k < series.len(),
        ({
            let own = episodes.filter(of_series(series[k].series_id));
            &&& same_states(state_map(states), state_map(own_states), own)
            &&& disable_first || exists|i: int|
                0 <= i < own.len() && (in_progress(state_map(own_states), #[trigger] own[i])
                    || played(state_map(own_states), own[i]))
        }),
    ensures
        ({
            let list = sorted_candidates(series, episodes, states, true);
            let own = in_watch_order(episodes.filter(of_series(series[k].series_id)));
            let position = next_position(own, state_map(own_states), true, disable_first);
            match position {
                Some(at) => {
                    &&& 0 <= at < own.len()
                    &&& list.contains(
                        (Candidate {
                            episode: own[at],
                            effective: effective_time(own[at], series[k].last_activity),
                        }),
                    )
                    &&& forall|i: int|
                        0 <= i < list.len() && (#[trigger] list[i]).episode.series_id == Some(
                            series[k].series_id,
                        ) ==> list[i].episode == own[at]
                },
                None => forall|i: int|
                    0 <= i < list.len() ==> (#[trigger] list[i]).episode.series_id != Some(
                        series[k].series_id,
                    ),
            }
        }),
{
    let id = series[k].series_id;
    let given = episodes.filter(of_series(id));
    let ordered = in_watch_order(episodes);
    let own = in_watch_order(given);
    let known = state_map(states);
    let own_known = state_map(own_states);
    let f = series_candidate(ordered, known, true);
    let list = sorted_candidates(series, episodes, states, true);
    law_watch_order_of_a_part(episodes, of_series(id));
    episodes.lemma_filter_len(of_series(id));
    assert(own == ordered.filter(of_series(id)));
    assert(same_states(known, own_known, own)) by {
        assert forall|i: int| 0 <= i < own.len() implies ({
            &&& known.dom().contains((#[trigger] own[i]).id) == own_known.dom().contains(own[i].id)
            &&& known.dom().contains(own[i].id) ==> known[own[i].id] == own_known[own[i].id]
        }) by {
            assert(own.contains(own[i]));
            lemma_ordered_episode_is_given(given, own[i]);
            let j = choose|j: int| 0 <= j < given.len() && given[j] == own[i];
            assert(given[j].id == own[i].id);
        }
    }
    lemma_same_states_same_position(own, known, own_known, disable_first);
    law_both_lookups_agree(own, known, disable_first);
    if !disable_first {
        let i = choose|i: int|
            0 <= i < given.len() && (in_progress(own_known, #[trigger] given[i]) || played(
                own_known,
                given[i],
            ));
        lemma_given_episode_is_ordered(given, i);
        let j = choose|j: int| 0 <= j < own.len() && own[j] == given[i];
        lemma_first_where(in_progress_at(own, own_known), 0, own.len() as int);
        lemma_last_where(played_at(own, own_known), own.len() as int);
        if in_progress(own_known, own[j]) {
            assert(in_progress_at(own, own_known)(j));
        } else {
            assert(played_at(own, own_known)(j));
        }
    }
    let position = next_position(own, own_known, true, disable_first);
    assert(candidate_position(own, known, true) == position);
    lemma_candidate_position_in_range(own, known, true);
    lemma_every_candidate_is_listed(series, episodes, states, true, k);
    assert forall|i: int|
        0 <= i < list.len() && (#[trigger] list[i]).episode.series_id == Some(id) implies position
        is Some && list[i].episode == own[position->0] by {
        let found = unsorted_candidates(series, episodes, states, true);
        let keys = candidate_keys(found);
        lemma_no_more_candidates_than_series(series, f);
        law_stable_order_exists(keys);
        let from = stable_order(keys)[i];
        assert(from < keys.len());
        assert(found.contains(found[from as int]));
        lemma_candidates_have_series(series, f, list[i]);
        let m = choose|m: int| 0 <= m < series.len() && f(#[trigger] series[m]) == Some(list[i]);
        lemma_candidate_is_of_series(ordered, known, true, series[m]);
    }
}

} // verus!

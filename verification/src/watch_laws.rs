//! What holds of every list of watched series and of every next episode, on dates and numbers.

use vstd::prelude::*;

use crate::activity::{
    cutoff_of_text, last_activity, law_every_watched_series_is_listed,
    law_last_activity_is_the_latest, law_series_are_listed_latest_first,
    law_series_are_listed_once, watched_series, ActiveSeries, ActivityRow,
};
use crate::lookup::law_last_pair_counts;
use crate::nextup::{
    candidate_keys, candidate_position, episode_ids, in_progress_at, in_watch_order, last_played,
    next_position, of_series, played_at, regular_at, resumable, series_candidate, sorted_candidates,
    state_map, state_pairs, unsorted_candidates, watch_keys, Episode, UserMediaState,
};
use crate::nextup_laws::{
    law_list_runs_from_the_latest, law_watch_order_of_a_part, lemma_candidate_is_of_series,
    lemma_candidate_position_in_range, lemma_candidates_have_series,
    lemma_every_candidate_is_listed, lemma_no_more_candidates_than_series,
};
use crate::sequences::{
    law_stable_order_exists, lemma_first_where, lemma_last_where, precedes, stable_order,
};
use crate::time::{timestamp_of_rfc3339, timestamp_of_text, Timestamp};

verus! {

/// Whether `a` is not after `b`: it has fewer seconds, or the same and no more nanoseconds.
pub open spec fn not_after(a: Timestamp, b: Timestamp) -> bool {
    a.secs < b.secs || a.secs == b.secs && a.nanos <= b.nanos
}

// ---------------------------------------------------------------------------------------------
// Watched series

/// Whether a row is that of an episode of a series that was played, or started and not played.
pub open spec fn is_watched(row: ActivityRow) -> bool {
    row.kind is Episode && row.series_id is Some && (row.play_count > 0 || row.play_count == 0
        && row.playback_position > 0)
}

/// The date of a row: when it was last played, else when it was played, else the start of 1970.
pub open spec fn date_of(row: ActivityRow) -> Timestamp {
    if row.last_played_at is Some {
        row.last_played_at->0
    } else if row.played_at is Some {
        row.played_at->0
    } else {
        Timestamp { secs: 0, nanos: 0 }
    }
}

/// A listed series has a watched row with the date it is listed by, none of its watched rows has a
/// later one, and that date is not before the cutoff. The list runs from the latest date to the
/// earliest, and names no series twice.
pub proof fn law_series_are_listed_by_their_latest_date(
    rows: Seq<ActivityRow>,
    cutoff: Timestamp,
    i: int,
    j: int,
    k: int,
)
    requires
        rows.len() <= usize::MAX,
        0 <= i < watched_series(rows, cutoff).len(),
    ensures
        ({
            let list = watched_series(rows, cutoff);
            let s = list[i];
            &&& exists|x: int|
                0 <= x < rows.len() && is_watched(#[trigger] rows[x]) && rows[x].series_id == Some(
                    s.series_id,
                ) && date_of(rows[x]) == s.last_activity
            &&& 0 <= k < rows.len() && is_watched(rows[k]) && rows[k].series_id == Some(s.series_id)
                ==> not_after(date_of(rows[k]), s.last_activity)
            &&& not_after(cutoff, s.last_activity)
            &&& i < j < list.len() ==> not_after(list[j].last_activity, s.last_activity)
                && list[j].series_id != s.series_id
        }),
{
    let list = watched_series(rows, cutoff);
    let s = list[i];
    law_series_are_listed_latest_first(rows, cutoff, i, i);
    if i < j < list.len() {
        law_series_are_listed_latest_first(rows, cutoff, i, j);
        law_series_are_listed_once(rows, cutoff, i, j);
    }
    if 0 <= k < rows.len() && is_watched(rows[k]) && rows[k].series_id == Some(s.series_id) {
        law_last_activity_is_the_latest(rows, s.series_id, k);
    }
    lemma_some_row_has_the_date(rows, s.series_id);
    let x = choose|x: int|
        0 <= x < rows.len() && (#[trigger] rows[x]).active() && rows[x].series_id == Some(
            s.series_id,
        ) && rows[x].activity() == last_activity(rows, s.series_id)->0;
    assert(is_watched(rows[x]) && date_of(rows[x]) == s.last_activity);
}

proof fn lemma_some_row_has_the_date(rows: Seq<ActivityRow>, series: u128)
    requires
        last_activity(rows, series) is Some,
    ensures
        exists|x: int|
            0 <= x < rows.len() && (#[trigger] rows[x]).active() && rows[x].series_id == Some(
                series,
            ) && rows[x].activity() == last_activity(rows, series)->0,
{
    lemma_activity_needs_a_row(rows, series);
    let k = choose|k: int|
        0 <= k < rows.len() && (#[trigger] rows[k]).active() && rows[k].series_id == Some(series);
    law_last_activity_is_the_latest(rows, series, k);
}

proof fn lemma_activity_needs_a_row(rows: Seq<ActivityRow>, series: u128)
    requires
        last_activity(rows, series) is Some,
    ensures
        exists|k: int|
            0 <= k < rows.len() && (#[trigger] rows[k]).active() && rows[k].series_id == Some(series),
    decreases rows.len(),
{
    let row = rows[rows.len() - 1];
    if row.active() && row.series_id == Some(series) {
        assert(rows[rows.len() - 1].active());
    } else {
        lemma_activity_needs_a_row(rows.drop_last(), series);
        let k = choose|k: int|
            0 <= k < rows.drop_last().len() && (#[trigger] rows.drop_last()[k]).active()
                && rows.drop_last()[k].series_id == Some(series);
        assert(rows[k].active());
    }
}

/// A series is listed as soon as one of its rows was watched at the cutoff or later.
pub proof fn law_series_watched_since_the_cutoff_are_listed(
    rows: Seq<ActivityRow>,
    cutoff: Timestamp,
    k: int,
)
    requires
        rows.len() <= usize::MAX,
        0 <= k < rows.len(),
        is_watched(rows[k]),
        not_after(cutoff, date_of(rows[k])),
    ensures
        exists|i: int|
            0 <= i < watched_series(rows, cutoff).len() && Some(
                (#[trigger] watched_series(rows, cutoff)[i]).series_id,
            ) == rows[k].series_id,
{
    let series = rows[k].series_id->0;
    law_last_activity_is_the_latest(rows, series, k);
    law_every_watched_series_is_listed(rows, cutoff, series);
}

/// Without a cutoff everything since the start of 1970 counts. A cutoff is read as a date and time,
/// else as RFC 3339 has it, else as a date, whose midnight counts; other text is refused.
pub proof fn law_readings_of_a_cutoff(text: Seq<char>)
    ensures
        cutoff_of_text(None) == Some(Timestamp { secs: 0, nanos: 0 }),
        ({
            let plain = timestamp_of_text(text, "%Y-%m-%d %H:%M:%S"@);
            let zoned = timestamp_of_rfc3339(text);
            let midnight = timestamp_of_text(text + " 00:00:00"@, "%Y-%m-%d %H:%M:%S"@);
            &&& plain is Some ==> cutoff_of_text(Some(text)) == plain
            &&& plain is None && zoned is Some ==> cutoff_of_text(Some(text)) == zoned
            &&& plain is None && zoned is None ==> cutoff_of_text(Some(text)) == midnight
        }),
{
}

// ---------------------------------------------------------------------------------------------
// Watch order

/// A season's or an episode's number, 9999 where it has none.
pub open spec fn number_of(idx: Option<i64>) -> int {
    if idx is Some {
        idx->0 as int
    } else {
        9999
    }
}

/// Watch order goes by the number of the season, then by the number of the episode, each as it is;
/// what has no number stands at 9999. Episodes with the same numbers keep the order they came in.
/// Every episode has its place.
pub proof fn law_watch_order_goes_by_numbers(episodes: Seq<Episode>, i: int, j: int)
    requires
        episodes.len() <= usize::MAX,
        0 <= i < j < in_watch_order(episodes).len(),
    ensures
        ({
            let a = in_watch_order(episodes)[i];
            let b = in_watch_order(episodes)[j];
            let (s, t) = (number_of(a.parent_idx), number_of(b.parent_idx));
            let (m, n) = (number_of(a.idx), number_of(b.idx));
            &&& in_watch_order(episodes).len() == episodes.len()
            &&& s <= t
            &&& s == t ==> m <= n
            &&& s == t && m == n ==> exists|x: int, y: int|
                0 <= x < y < episodes.len() && #[trigger] episodes[x] == a
                    && #[trigger] episodes[y] == b
        }),
{
    let keys = watch_keys(episodes);
    let order = stable_order(keys);
    law_stable_order_exists(keys);
    assert(precedes(keys, order[i], order[j]));
    assert(order[i] < keys.len() && order[j] < keys.len());
    let x = order[i] as int;
    let y = order[j] as int;
    assert(episodes[x] == in_watch_order(episodes)[i]);
    assert(episodes[y] == in_watch_order(episodes)[j]);
}

/// No episode is lost in watch order, and none is made up.
pub proof fn law_watch_order_holds_every_episode(episodes: Seq<Episode>, i: int)
    requires
        episodes.len() <= usize::MAX,
        0 <= i < episodes.len(),
    ensures
        in_watch_order(episodes).len() == episodes.len(),
        in_watch_order(episodes).contains(episodes[i]),
        episodes.contains(in_watch_order(episodes)[i]),
{
    let keys = watch_keys(episodes);
    let order = stable_order(keys);
    law_stable_order_exists(keys);
    crate::sequences::law_stable_order_lists_every_position(keys, order, i as usize);
    let k = choose|k: int| 0 <= k < order.len() && order[k] == i as usize;
    assert(in_watch_order(episodes)[k] == episodes[i]);
    assert(order[i] < keys.len());
    assert(episodes[order[i] as int] == in_watch_order(episodes)[i]);
}

// ---------------------------------------------------------------------------------------------
// States

/// What is known of a media is what the last state for it says.
pub proof fn law_last_state_counts(states: Seq<UserMediaState>, i: int)
    requires
        0 <= i < states.len(),
        forall|j: int| i < j < states.len() ==> (#[trigger] states[j]).media_id != states[i].media_id,
    ensures
        state_map(states).dom().contains(states[i].media_id),
        state_map(states)[states[i].media_id] == states[i],
{
    let pairs = state_pairs(states);
    assert forall|j: int| i < j < pairs.len() implies (#[trigger] pairs[j]).0 != pairs[i].0 by {
        assert(states[j].media_id != states[i].media_id);
    }
    law_last_pair_counts(pairs, i);
}

/// Nothing is known of a media that no state is for.
pub proof fn law_media_without_a_state(states: Seq<UserMediaState>, id: u128)
    requires
        forall|i: int| 0 <= i < states.len() ==> (#[trigger] states[i]).media_id != id,
    ensures
        !state_map(states).dom().contains(id),
{
    let pairs = state_pairs(states);
    assert forall|j: int| 0 <= j < pairs.len() implies (#[trigger] pairs[j]).0 != id by {
        assert(states[j].media_id != id);
    }
    crate::lookup::law_unlisted_identifier_is_not_mapped(pairs, id);
}

/// States are asked for under the ids of the episodes, all of them, in order.
pub proof fn law_states_are_asked_for_by_id(episodes: Seq<Episode>, i: int)
    requires
        0 <= i < episodes.len(),
    ensures
        episode_ids(episodes).len() == episodes.len(),
        episode_ids(episodes)[i] == episodes[i].id,
{
}

/// Whether an episode was begun: it was never played to the end, and stands behind its start.
pub open spec fn is_begun(states: Map<u128, UserMediaState>, e: Episode) -> bool {
    states.dom().contains(e.id) && states[e.id].play_count == 0 && states[e.id].playback_position
        > 0
}

/// Whether an episode was played to the end.
pub open spec fn is_done(states: Map<u128, UserMediaState>, e: Episode) -> bool {
    states.dom().contains(e.id) && states[e.id].play_count > 0
}

// ---------------------------------------------------------------------------------------------
// The next episode

/// Where `at` is the next episode behind those that were played: the one before it was played, it
/// and all behind it were not.
pub open spec fn is_behind_played(
    episodes: Seq<Episode>,
    states: Map<u128, UserMediaState>,
    at: int,
) -> bool {
    &&& 0 < at < episodes.len()
    &&& is_done(states, episodes[at - 1])
    &&& forall|k: int| at <= k < episodes.len() ==> !is_done(states, #[trigger] episodes[k])
}

proof fn lemma_resumable(episodes: Seq<Episode>, states: Map<u128, UserMediaState>)
    ensures
        match resumable(episodes, states) {
            Some(at) => 0 <= at < episodes.len() && is_begun(states, episodes[at]) && forall|k: int|
                0 <= k < at ==> !is_begun(states, #[trigger] episodes[k]),
            None => forall|k: int|
                0 <= k < episodes.len() ==> !is_begun(states, #[trigger] episodes[k]),
        },
{
    let p = in_progress_at(episodes, states);
    let n = episodes.len() as int;
    lemma_first_where(p, 0, n);
    let end = match resumable(episodes, states) {
        Some(at) => at,
        None => n,
    };
    assert forall|k: int| 0 <= k < end implies !is_begun(states, #[trigger] episodes[k]) by {
        assert(!p(k));
    }
    if resumable(episodes, states) is Some {
        assert(p(end));
    }
}

proof fn lemma_last_played(episodes: Seq<Episode>, states: Map<u128, UserMediaState>)
    ensures
        match last_played(episodes, states) {
            Some(at) => 0 <= at < episodes.len() && is_done(states, episodes[at]) && forall|k: int|
                at < k < episodes.len() ==> !is_done(states, #[trigger] episodes[k]),
            None => forall|k: int|
                0 <= k < episodes.len() ==> !is_done(states, #[trigger] episodes[k]),
        },
{
    let q = played_at(episodes, states);
    let n = episodes.len() as int;
    lemma_last_where(q, n);
    let start = match last_played(episodes, states) {
        Some(at) => at + 1,
        None => 0,
    };
    assert forall|k: int| start <= k < n implies !is_done(states, #[trigger] episodes[k]) by {
        assert(!q(k));
    }
    if last_played(episodes, states) is Some {
        assert(q(start - 1));
    }
}

/// Where resuming is enabled, the first episode that was begun is next, whatever else was played.
pub proof fn law_first_begun_episode_is_next(
    episodes: Seq<Episode>,
    states: Map<u128, UserMediaState>,
    disable_first: bool,
    i: int,
)
    requires
        0 <= i < episodes.len(),
        is_begun(states, episodes[i]),
    ensures
        next_position(episodes, states, true, disable_first) matches Some(at) && 0 <= at <= i
            && is_begun(states, episodes[at]) && forall|k: int|
            0 <= k < at ==> !is_begun(states, #[trigger] episodes[k]),
        candidate_position(episodes, states, true) == next_position(
            episodes,
            states,
            true,
            disable_first,
        ),
{
    lemma_resumable(episodes, states);
}

/// Where nothing is resumed and something was played, the episode directly behind the last one
/// played is next, whether it was begun or not, and none is where the last episode was played. The
/// list leaves it out where resuming is disabled and the user stands within it.
pub proof fn law_episode_behind_the_played_is_next(
    episodes: Seq<Episode>,
    states: Map<u128, UserMediaState>,
    resume: bool,
    disable_first: bool,
    i: int,
)
    requires
        0 <= i < episodes.len(),
        is_done(states, episodes[i]),
        resume ==> forall|k: int|
            0 <= k < episodes.len() ==> !is_begun(states, #[trigger] episodes[k]),
    ensures
        ({
            let next = next_position(episodes, states, resume, disable_first);
            let listed = candidate_position(episodes, states, resume);
            &&& next matches Some(at) ==> is_behind_played(episodes, states, at) && i < at
            &&& next is None <==> is_done(states, episodes[episodes.len() - 1])
            &&& next is None ==> listed is None
            &&& next matches Some(at) ==> ({
                let within = states.dom().contains(episodes[at].id)
                    && states[episodes[at].id].playback_position > 0;
                listed == if !resume && within {
                    None
                } else {
                    next
                }
            })
        }),
{
    lemma_resumable(episodes, states);
    lemma_last_played(episodes, states);
    let last = last_played(episodes, states)->0;
    if last == episodes.len() - 1 {
        assert(is_done(states, episodes[episodes.len() - 1]));
    } else {
        assert(!is_done(states, episodes[episodes.len() - 1]));
    }
}

/// Where nothing is resumed and nothing was played, the first episode whose season is not zero or
/// below is next, else the first of all; none is where the first episode is disabled or there is
/// none. The list of all series never holds it.
pub proof fn law_unplayed_series_starts_at_its_first_season(
    episodes: Seq<Episode>,
    states: Map<u128, UserMediaState>,
    resume: bool,
    disable_first: bool,
)
    requires
        forall|k: int| 0 <= k < episodes.len() ==> !is_done(states, #[trigger] episodes[k]),
        resume ==> forall|k: int|
            0 <= k < episodes.len() ==> !is_begun(states, #[trigger] episodes[k]),
    ensures
        ({
            let next = next_position(episodes, states, resume, disable_first);
            &&& candidate_position(episodes, states, resume) is None
            &&& disable_first || episodes.len() == 0 ==> next is None
            &&& !disable_first && episodes.len() > 0 ==> {
                &&& next matches Some(at)
                &&& 0 <= at < episodes.len()
                &&& number_of(episodes[at].parent_idx) > 0 || at == 0 && forall|k: int|
                    0 <= k < episodes.len() ==> number_of(
                        (#[trigger] episodes[k]).parent_idx,
                    ) <= 0
                &&& forall|k: int|
                    0 <= k < at ==> number_of((#[trigger] episodes[k]).parent_idx) <= 0
            }
        }),
{
    lemma_resumable(episodes, states);
    lemma_last_played(episodes, states);
    let r = regular_at(episodes);
    let n = episodes.len() as int;
    lemma_first_where(r, 0, n);
    let first = crate::sequences::first_where(r, 0, n);
    let end = match first {
        Some(at) => at,
        None => n,
    };
    assert forall|k: int| 0 <= k < end implies number_of((#[trigger] episodes[k]).parent_idx)
        <= 0 by {
        assert(!r(k));
    }
    if first is Some {
        assert(r(end));
    }
}

// ---------------------------------------------------------------------------------------------
// The list of all series

/// When an episode was released: digitally, else at all, else at the start of 1970.
pub open spec fn release_of(e: Episode) -> Timestamp {
    if e.digital_released_at is Some {
        e.digital_released_at->0
    } else if e.released_at is Some {
        e.released_at->0
    } else {
        Timestamp { secs: 0, nanos: 0 }
    }
}

/// Each listed episode belongs to a series of the list of watched ones and is listed by its release
/// or by the last activity in that series, whichever is later: neither of the two dates is after
/// the one it is listed by, which is one of them.
pub proof fn law_episodes_are_listed_by_the_later_date(
    series: Seq<ActiveSeries>,
    episodes: Seq<Episode>,
    states: Seq<UserMediaState>,
    resume: bool,
    i: int,
)
    requires
        series.len() <= usize::MAX,
        0 <= i < sorted_candidates(series, episodes, states, resume).len(),
    ensures
        ({
            let c = sorted_candidates(series, episodes, states, resume)[i];
            exists|k: int|
                0 <= k < series.len() && c.episode.series_id == Some(
                    (#[trigger] series[k]).series_id,
                ) && not_after(series[k].last_activity, c.effective) && not_after(
                    release_of(c.episode),
                    c.effective,
                ) && (c.effective == series[k].last_activity || c.effective == release_of(
                    c.episode,
                ))
        }),
{
    let ordered = in_watch_order(episodes);
    let known = state_map(states);
    let f = series_candidate(ordered, known, resume);
    let found = unsorted_candidates(series, episodes, states, resume);
    let keys = candidate_keys(found);
    lemma_no_more_candidates_than_series(series, f);
    law_stable_order_exists(keys);
    let from = stable_order(keys)[i];
    assert(from < keys.len());
    let c = found[from as int];
    assert(found.contains(c));
    lemma_candidates_have_series(series, f, c);
    let k = choose|k: int| 0 <= k < series.len() && f(#[trigger] series[k]) == Some(c);
    lemma_candidate_is_of_series(ordered, known, resume, series[k]);
    assert(c.episode.series_id == Some(series[k].series_id));
}

/// The list runs from the latest date to the earliest.
pub proof fn law_list_runs_by_date(
    series: Seq<ActiveSeries>,
    episodes: Seq<Episode>,
    states: Seq<UserMediaState>,
    resume: bool,
    i: int,
    j: int,
)
    requires
        series.len() <= usize::MAX,
        0 <= i < j < sorted_candidates(series, episodes, states, resume).len(),
    ensures
        not_after(
            sorted_candidates(series, episodes, states, resume)[j].effective,
            sorted_candidates(series, episodes, states, resume)[i].effective,
        ),
{
    law_list_runs_from_the_latest(series, episodes, states, resume, i, j);
}

/// The list holds the next episode of each watched series, among the episodes of that series alone
/// in watch order, and no other episode of it; none where the series has no next episode.
pub proof fn law_list_holds_the_next_of_each_series(
    series: Seq<ActiveSeries>,
    episodes: Seq<Episode>,
    states: Seq<UserMediaState>,
    resume: bool,
    k: int,
)
    requires
        series.len() <= usize::MAX,
        episodes.len() <= usize::MAX,
        0 <= k < series.len(),
    ensures
        ({
            let id = series[k].series_id;
            let own = in_watch_order(episodes.filter(|e: Episode| e.series_id == Some(id)));
            let next = candidate_position(own, state_map(states), resume);
            let list = sorted_candidates(series, episodes, states, resume);
            &&& next matches Some(at) ==> exists|i: int|
                0 <= i < list.len() && (#[trigger] list[i]).episode == own[at]
            &&& forall|i: int|
                0 <= i < list.len() && (#[trigger] list[i]).episode.series_id == Some(id) ==> next
                    is Some && list[i].episode == own[next->0]
        }),
{
    let id = series[k].series_id;
    let part = |e: Episode| e.series_id == Some(id);
    assert(part =~= of_series(id));
    let ordered = in_watch_order(episodes);
    let own = in_watch_order(episodes.filter(part));
    let known = state_map(states);
    let next = candidate_position(own, known, resume);
    let f = series_candidate(ordered, known, resume);
    let list = sorted_candidates(series, episodes, states, resume);
    law_watch_order_of_a_part(episodes, part);
    assert(own == ordered.filter(of_series(id)));
    lemma_every_candidate_is_listed(series, episodes, states, resume, k);
    lemma_candidate_position_in_range(own, known, resume);
    if next is Some {
        let c = f(series[k])->0;
        let i = choose|i: int| 0 <= i < list.len() && list[i] == c;
        assert(list[i].episode == own[next->0]);
    }
    assert forall|i: int|
        0 <= i < list.len() && (#[trigger] list[i]).episode.series_id == Some(id) implies next
        is Some && list[i].episode == own[next->0] by {
        let found = unsorted_candidates(series, episodes, states, resume);
        let keys = candidate_keys(found);
        lemma_no_more_candidates_than_series(series, f);
        law_stable_order_exists(keys);
        let from = stable_order(keys)[i];
        assert(from < keys.len());
        assert(found.contains(found[from as int]));
        lemma_candidates_have_series(series, f, list[i]);
        let m = choose|m: int| 0 <= m < series.len() && f(#[trigger] series[m]) == Some(list[i]);
        lemma_candidate_is_of_series(ordered, known, resume, series[m]);
    }
}

} // verus!

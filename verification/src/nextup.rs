//! The next episode to watch, for one series and for all series that a user is watching.

use std::collections::HashMap;

use vstd::prelude::*;

use crate::activity::{latest_first, latest_first_key, ActiveSeries};
use crate::lookup::{index_pairs, pairs_map};
use crate::sequences::{
    batches, first_where, in_batches, inner, is_stable_order, last_where, rearranged,
    sort_positions, stable_order, SortKey,
};
use crate::time::{epoch, Timestamp};

verus! {

broadcast use vstd::std_specs::hash::group_hash_axioms;

/// Where an episode without a number stands among those of its series.
pub const LAST_INDEX: i64 = 9999;

/// Played states fetched per statement.
pub const STATE_CHUNK: usize = 900;

/// An episode.
#[derive(Clone, Copy, Debug, PartialEq, Eq, Structural)]
pub struct Episode {
    pub id: u128,
    pub series_id: Option<u128>,
    /// The number of its season, and its own number in the season.
    pub parent_idx: Option<i64>,
    pub idx: Option<i64>,
    pub digital_released_at: Option<Timestamp>,
    pub released_at: Option<Timestamp>,
}

/// What a user did with one media.
#[derive(Clone, Copy, Debug, PartialEq, Eq, Structural)]
pub struct UserMediaState {
    pub media_id: u128,
    pub play_count: i64,
    pub playback_position: i64,
}

// ---------------------------------------------------------------------------------------------
// Watch order

/// A number, or the last place where there is none.
pub open spec fn index_or_last(idx: Option<i64>) -> i64 {
    match idx {
        Some(n) => n,
        None => LAST_INDEX,
    }
}

/// The keys of the watch order: by season, then by episode.
pub open spec fn watch_keys(episodes: Seq<Episode>) -> Seq<SortKey> {
    Seq::new(
        episodes.len(),
        |i: int|
            SortKey {
                major: index_or_last(episodes[i].parent_idx) as i128,
                minor: index_or_last(episodes[i].idx) as i128,
            },
    )
}

/// The episodes in watch order.
pub open spec fn in_watch_order(episodes: Seq<Episode>) -> Seq<Episode> {
    rearranged(episodes, stable_order(watch_keys(episodes)))
}

fn index_or_last_value(idx: Option<i64>) -> (r: i64)
    ensures
        r == index_or_last(idx),
{
    match idx {
        Some(n) => n,
        None => LAST_INDEX,
    }
}

/// The episodes in watch order.
pub fn watch_order(episodes: &Vec<Episode>) -> (r: Vec<Episode>)
    ensures
        r@ == in_watch_order(episodes@),
        r.len() == episodes.len(),
{
    let mut keys: Vec<SortKey> = Vec::new();
    let mut i: usize = 0;
    while i < episodes.len()
        invariant
            i <= episodes.len(),
            keys@ == watch_keys(episodes@).take(i as int),
        decreases episodes.len() - i,
    {
        let e: Episode = episodes[i];
        keys.push(
            SortKey {
                major: index_or_last_value(e.parent_idx) as i128,
                minor: index_or_last_value(e.idx) as i128,
            },
        );
        i = i + 1;
        assert(keys@ =~= watch_keys(episodes@).take(i as int));
    }
    assert(keys@ =~= watch_keys(episodes@));
    let order: Vec<usize> = sort_positions(&keys);
    let mut out: Vec<Episode> = Vec::new();
    let mut k: usize = 0;
    while k < order.len()
        invariant
            k <= order.len(),
            keys@ == watch_keys(episodes@),
            is_stable_order(keys@, order@),
            out@ == rearranged(episodes@, order@).take(k as int),
        decreases order.len() - k,
    {
        out.push(episodes[order[k]]);
        k = k + 1;
        assert(out@ =~= rearranged(episodes@, order@).take(k as int));
    }
    assert(out@ =~= rearranged(episodes@, order@));
    out
}

// ---------------------------------------------------------------------------------------------
// Played states

/// The states by media.
pub open spec fn state_pairs(states: Seq<UserMediaState>) -> Seq<(u128, UserMediaState)> {
    Seq::new(states.len(), |i: int| (states[i].media_id, states[i]))
}

/// The states by media.
pub open spec fn state_map(states: Seq<UserMediaState>) -> Map<u128, UserMediaState> {
    pairs_map(state_pairs(states))
}

/// Whether an episode was started and not played.
pub open spec fn in_progress(states: Map<u128, UserMediaState>, e: Episode) -> bool {
    states.dom().contains(e.id) && states[e.id].play_count == 0 && states[e.id].playback_position
        > 0
}

/// Whether an episode was played.
pub open spec fn played(states: Map<u128, UserMediaState>, e: Episode) -> bool {
    states.dom().contains(e.id) && states[e.id].play_count > 0
}

/// Whether a user stands somewhere within an episode, played before or not.
pub open spec fn has_position(states: Map<u128, UserMediaState>, e: Episode) -> bool {
    states.dom().contains(e.id) && states[e.id].playback_position > 0
}

fn index_states(states: &Vec<UserMediaState>) -> (r: HashMap<u128, UserMediaState>)
    ensures
        r@ == state_map(states@),
{
    let mut pairs: Vec<(u128, UserMediaState)> = Vec::new();
    let mut i: usize = 0;
    while i < states.len()
        invariant
            i <= states.len(),
            pairs@ == state_pairs(states@).take(i as int),
        decreases states.len() - i,
    {
        pairs.push((states[i].media_id, states[i]));
        i = i + 1;
        assert(pairs@ =~= state_pairs(states@).take(i as int));
    }
    assert(pairs@ =~= state_pairs(states@));
    index_pairs(&pairs)
}

fn is_in_progress(states: &HashMap<u128, UserMediaState>, e: &Episode) -> (r: bool)
    ensures
        r == in_progress(states@, *e),
{
    match states.get(&e.id) {
        Some(s) => s.play_count == 0 && s.playback_position > 0,
        None => false,
    }
}

fn is_played(states: &HashMap<u128, UserMediaState>, e: &Episode) -> (r: bool)
    ensures
        r == played(states@, *e),
{
    match states.get(&e.id) {
        Some(s) => s.play_count > 0,
        None => false,
    }
}

fn is_positioned(states: &HashMap<u128, UserMediaState>, e: &Episode) -> (r: bool)
    ensures
        r == has_position(states@, *e),
{
    match states.get(&e.id) {
        Some(s) => s.playback_position > 0,
        None => false,
    }
}

/// The ids of `episodes`, in the batches in which their states are fetched.
pub fn state_batches(episodes: &Vec<Episode>) -> (r: Vec<Vec<u128>>)
    ensures
        inner(r@) == batches(episode_ids(episodes@), STATE_CHUNK as int),
{
    let mut ids: Vec<u128> = Vec::new();
    let mut i: usize = 0;
    while i < episodes.len()
        invariant
            i <= episodes.len(),
            ids@ == episode_ids(episodes@).take(i as int),
        decreases episodes.len() - i,
    {
        ids.push(episodes[i].id);
        i = i + 1;
        assert(ids@ =~= episode_ids(episodes@).take(i as int));
    }
    assert(ids@ =~= episode_ids(episodes@));
    in_batches(&ids, STATE_CHUNK)
}

/// The ids of `episodes`.
pub open spec fn episode_ids(episodes: Seq<Episode>) -> Seq<u128> {
    Seq::new(episodes.len(), |i: int| episodes[i].id)
}

// ---------------------------------------------------------------------------------------------
// Positions in one series

/// The positions of episodes that were started and not played.
pub open spec fn in_progress_at(
    episodes: Seq<Episode>,
    states: Map<u128, UserMediaState>,
) -> spec_fn(int) -> bool {
    |i: int| in_progress(states, episodes[i])
}

/// The positions of episodes that were played.
pub open spec fn played_at(episodes: Seq<Episode>, states: Map<u128, UserMediaState>) -> spec_fn(
    int,
) -> bool {
    |i: int| played(states, episodes[i])
}

/// The positions of regular episodes, those that are not of season zero.
pub open spec fn regular_at(episodes: Seq<Episode>) -> spec_fn(int) -> bool {
    |i: int|
        match episodes[i].parent_idx {
            Some(n) => n > 0,
            None => true,
        }
}

/// The first episode that was started and not played.
pub open spec fn resumable(episodes: Seq<Episode>, states: Map<u128, UserMediaState>) -> Option<
    int,
> {
    first_where(in_progress_at(episodes, states), 0, episodes.len() as int)
}

/// The last episode that was played.
pub open spec fn last_played(episodes: Seq<Episode>, states: Map<u128, UserMediaState>) -> Option<
    int,
> {
    last_where(played_at(episodes, states), episodes.len() as int)
}

/// The first regular episode, else the first episode.
pub open spec fn first_regular(episodes: Seq<Episode>) -> Option<int> {
    match first_where(regular_at(episodes), 0, episodes.len() as int) {
        Some(i) => Some(i),
        None => if episodes.len() > 0 {
            Some(0)
        } else {
            None
        },
    }
}

/// The position behind `at`, where there is one.
pub open spec fn behind(at: int, len: nat) -> Option<int> {
    if at + 1 < len {
        Some(at + 1)
    } else {
        None
    }
}

fn find_resumable(episodes: &Vec<Episode>, states: &HashMap<u128, UserMediaState>) -> (r: Option<
    usize,
>)
    ensures
        match r {
            Some(i) => resumable(episodes@, states@) == Some(i as int) && i < episodes.len(),
            None => resumable(episodes@, states@) is None,
        },
{
    let ghost p = in_progress_at(episodes@, states@);
    let mut i: usize = 0;
    while i < episodes.len()
        invariant
            i <= episodes.len(),
            p == in_progress_at(episodes@, states@),
            resumable(episodes@, states@) == first_where(p, i as int, episodes.len() as int),
        decreases episodes.len() - i,
    {
        if is_in_progress(states, &episodes[i]) {
            assert(p(i as int));
            return Some(i);
        }
        assert(!p(i as int));
        i = i + 1;
    }
    None
}

fn find_last_played(episodes: &Vec<Episode>, states: &HashMap<u128, UserMediaState>) -> (r: Option<
    usize,
>)
    ensures
        match r {
            Some(i) => last_played(episodes@, states@) == Some(i as int) && i < episodes.len(),
            None => last_played(episodes@, states@) is None,
        },
{
    let ghost p = played_at(episodes@, states@);
    let mut n: usize = episodes.len();
    while n > 0
        invariant
            n <= episodes.len(),
            p == played_at(episodes@, states@),
            last_played(episodes@, states@) == last_where(p, n as int),
        decreases n,
    {
        if is_played(states, &episodes[n - 1]) {
            assert(p(n - 1));
            return Some(n - 1);
        }
        assert(!p(n - 1));
        n = n - 1;
    }
    None
}

fn find_first_regular(episodes: &Vec<Episode>) -> (r: Option<usize>)
    ensures
        match r {
            Some(i) => first_regular(episodes@) == Some(i as int) && i < episodes.len(),
            None => first_regular(episodes@) is None,
        },
{
    let ghost p = regular_at(episodes@);
    let mut i: usize = 0;
    while i < episodes.len()
        invariant
            i <= episodes.len(),
            p == regular_at(episodes@),
            first_where(p, 0, episodes.len() as int) == first_where(
                p,
                i as int,
                episodes.len() as int,
            ),
        decreases episodes.len() - i,
    {
        let regular: bool = match episodes[i].parent_idx {
            Some(n) => n > 0,
            None => true,
        };
        if regular {
            assert(p(i as int));
            return Some(i);
        }
        assert(!p(i as int));
        i = i + 1;
    }
    if episodes.len() > 0 {
        Some(0)
    } else {
        None
    }
}

// ---------------------------------------------------------------------------------------------
// One series

/// The position of the next episode among those of one series, in watch order: the first one under
/// way, where resuming is enabled; else the one behind the last played; else, where nothing was
/// played, the first regular one, unless that is disabled.
pub open spec fn next_position(
    episodes: Seq<Episode>,
    states: Map<u128, UserMediaState>,
    enable_resumable: bool,
    disable_first: bool,
) -> Option<int> {
    if enable_resumable && resumable(episodes, states) is Some {
        resumable(episodes, states)
    } else {
        match last_played(episodes, states) {
            Some(at) => behind(at, episodes.len()),
            None => if disable_first {
                None
            } else {
                first_regular(episodes)
            },
        }
    }
}

/// The next episode of one series. `enable_resumable` counts as set and `disable_first_episode` as
/// not set where they are not given.
pub fn next_in_series(
    episodes: &Vec<Episode>,
    states: &Vec<UserMediaState>,
    enable_resumable: Option<bool>,
    disable_first_episode: Option<bool>,
) -> (r: Option<Episode>)
    ensures
        ({
            let ordered = in_watch_order(episodes@);
            let position = next_position(
                ordered,
                state_map(states@),
                enable_resumable != Some(false),
                disable_first_episode == Some(true),
            );
            match r {
                Some(e) => position is Some && 0 <= position->0 < ordered.len() && e
                    == ordered[position->0],
                None => position is None,
            }
        }),
{
    let ordered: Vec<Episode> = watch_order(episodes);
    let known: HashMap<u128, UserMediaState> = index_states(states);
    let resume: bool = match enable_resumable {
        Some(b) => b,
        None => true,
    };
    let skip_first: bool = match disable_first_episode {
        Some(b) => b,
        None => false,
    };
    if resume {
        match find_resumable(&ordered, &known) {
            Some(i) => {
                return Some(ordered[i]);
            },
            None => {},
        }
    }
    match find_last_played(&ordered, &known) {
        Some(at) => if at + 1 < ordered.len() {
            Some(ordered[at + 1])
        } else {
            None
        },
        None => if skip_first {
            None
        } else {
            match find_first_regular(&ordered) {
                Some(i) => Some(ordered[i]),
                None => None,
            }
        },
    }
}

// ---------------------------------------------------------------------------------------------
// All series

/// An episode to watch next, and the point in time by which it is listed.
#[derive(Clone, Copy, Debug, PartialEq, Eq, Structural)]
pub struct Candidate {
    pub episode: Episode,
    pub effective: Timestamp,
}

/// The episodes of one series.
pub open spec fn of_series(series: u128) -> spec_fn(Episode) -> bool {
    |e: Episode| e.series_id == Some(series)
}

/// The position of the next episode of a series that was started. The first episode is never one,
/// and neither is an episode with a position where resuming is disabled.
pub open spec fn candidate_position(
    episodes: Seq<Episode>,
    states: Map<u128, UserMediaState>,
    enable_resumable: bool,
) -> Option<int> {
    if enable_resumable && resumable(episodes, states) is Some {
        resumable(episodes, states)
    } else {
        match last_played(episodes, states) {
            Some(at) => match behind(at, episodes.len()) {
                Some(i) => if !enable_resumable && has_position(states, episodes[i]) {
                    None
                } else {
                    Some(i)
                },
                None => None,
            },
            None => None,
        }
    }
}

/// When an episode was released: digitally, else at all, else at the epoch.
pub open spec fn release_time(e: Episode) -> Timestamp {
    match e.digital_released_at {
        Some(t) => t,
        None => match e.released_at {
            Some(t) => t,
            None => epoch(),
        },
    }
}

/// The point in time by which the next episode of a series is listed: its release, or the last
/// activity in the series where that is later.
pub open spec fn effective_time(e: Episode, last_activity: Timestamp) -> Timestamp {
    release_time(e).latest(last_activity)
}

/// The next episode of one series, where there is one.
pub open spec fn series_candidate(
    ordered: Seq<Episode>,
    states: Map<u128, UserMediaState>,
    enable_resumable: bool,
) -> spec_fn(ActiveSeries) -> Option<Candidate> {
    |s: ActiveSeries|
        {
            let episodes = ordered.filter(of_series(s.series_id));
            match candidate_position(episodes, states, enable_resumable) {
                Some(i) => Some(
                    Candidate {
                        episode: episodes[i],
                        effective: effective_time(episodes[i], s.last_activity),
                    },
                ),
                None => None,
            }
        }
}

/// The next episodes of all series, in the order of the series.
pub open spec fn unsorted_candidates(
    series: Seq<ActiveSeries>,
    episodes: Seq<Episode>,
    states: Seq<UserMediaState>,
    enable_resumable: bool,
) -> Seq<Candidate> {
    series.filter_map(
        series_candidate(in_watch_order(episodes), state_map(states), enable_resumable),
    )
}

/// The keys by which candidates are listed.
pub open spec fn candidate_keys(candidates: Seq<Candidate>) -> Seq<SortKey> {
    Seq::new(candidates.len(), |i: int| latest_first(candidates[i].effective))
}

/// The next episodes of all series, the latest first.
pub open spec fn sorted_candidates(
    series: Seq<ActiveSeries>,
    episodes: Seq<Episode>,
    states: Seq<UserMediaState>,
    enable_resumable: bool,
) -> Seq<Candidate> {
    let found = unsorted_candidates(series, episodes, states, enable_resumable);
    rearranged(found, stable_order(candidate_keys(found)))
}

fn select_series(ordered: &Vec<Episode>, series: u128) -> (r: Vec<Episode>)
    ensures
        r@ == ordered@.filter(of_series(series)),
{
    let ghost pred = of_series(series);
    let mut out: Vec<Episode> = Vec::new();
    let mut i: usize = 0;
    proof {
        reveal(Seq::filter);
        assert(ordered@.take(0).filter(pred) =~= Seq::<Episode>::empty());
    }
    while i < ordered.len()
        invariant
            i <= ordered.len(),
            pred == of_series(series),
            out@ == ordered@.take(i as int).filter(pred),
        decreases ordered.len() - i,
    {
        proof {
            assert(ordered@.take(i + 1) =~= ordered@.take(i as int).push(ordered@[i as int]));
            ordered@.take(i as int).lemma_filter_push(ordered@[i as int], pred);
        }
        let own: bool = match ordered[i].series_id {
            Some(id) => id == series,
            None => false,
        };
        if own {
            out.push(ordered[i]);
        }
        i = i + 1;
    }
    assert(ordered@.take(i as int) =~= ordered@);
    out
}

fn find_candidate(
    episodes: &Vec<Episode>,
    states: &HashMap<u128, UserMediaState>,
    enable_resumable: bool,
) -> (r: Option<usize>)
    ensures
        match r {
            Some(i) => candidate_position(episodes@, states@, enable_resumable) == Some(i as int)
                && i < episodes.len(),
            None => candidate_position(episodes@, states@, enable_resumable) is None,
        },
{
    if enable_resumable {
        match find_resumable(episodes, states) {
            Some(i) => {
                return Some(i);
            },
            None => {},
        }
    }
    match find_last_played(episodes, states) {
        Some(at) => if at + 1 < episodes.len() {
            if !enable_resumable && is_positioned(states, &episodes[at + 1]) {
                None
            } else {
                Some(at + 1)
            }
        } else {
            None
        },
        None => None,
    }
}

fn effective_point(e: &Episode, last_activity: Timestamp) -> (r: Timestamp)
    ensures
        r == effective_time(*e, last_activity),
{
    let release: Timestamp = match e.digital_released_at {
        Some(t) => t,
        None => match e.released_at {
            Some(t) => t,
            None => Timestamp::unix_epoch(),
        },
    };
    release.later_of(&last_activity)
}

fn collect_candidates(
    series: &Vec<ActiveSeries>,
    episodes: &Vec<Episode>,
    states: &Vec<UserMediaState>,
    enable_resumable: bool,
) -> (r: Vec<Candidate>)
    ensures
        r@ == unsorted_candidates(series@, episodes@, states@, enable_resumable),
{
    let ordered: Vec<Episode> = watch_order(episodes);
    let known: HashMap<u128, UserMediaState> = index_states(states);
    let ghost f = series_candidate(ordered@, known@, enable_resumable);
    let mut out: Vec<Candidate> = Vec::new();
    let mut i: usize = 0;
    proof {
        reveal(Seq::filter_map);
        assert(series@.take(0).filter_map(f) =~= Seq::<Candidate>::empty());
    }
    while i < series.len()
        invariant
            i <= series.len(),
            f == series_candidate(ordered@, known@, enable_resumable),
            out@ == series@.take(i as int).filter_map(f),
        decreases series.len() - i,
    {
        let s: ActiveSeries = series[i];
        let own: Vec<Episode> = select_series(&ordered, s.series_id);
        let ghost before = out@;
        match find_candidate(&own, &known, enable_resumable) {
            Some(k) => {
                let episode: Episode = own[k];
                let effective: Timestamp = effective_point(&episode, s.last_activity);
                out.push(Candidate { episode, effective });
                assert(f(s) == Some(Candidate { episode, effective }));
                assert(out@ =~= before + seq![Candidate { episode, effective }]);
            },
            None => {
                assert(f(s) is None);
                assert(out@ =~= before + Seq::<Candidate>::empty());
            },
        }
        proof {
            series@.lemma_filter_map_take_succ(f, i as int);
        }
        i = i + 1;
    }
    assert(series@.take(i as int) =~= series@);
    out
}

/// The next episode of each series that a user is watching, those that are listed by the latest
/// point in time first. `enable_resumable` counts as set where it is not given.
pub fn next_up_candidates(
    series: &Vec<ActiveSeries>,
    episodes: &Vec<Episode>,
    states: &Vec<UserMediaState>,
    enable_resumable: Option<bool>,
) -> (r: Vec<Candidate>)
    ensures
        r@ == sorted_candidates(series@, episodes@, states@, enable_resumable != Some(false)),
{
    let resume: bool = match enable_resumable {
        Some(b) => b,
        None => true,
    };
    let found: Vec<Candidate> = collect_candidates(series, episodes, states, resume);
    let mut keys: Vec<SortKey> = Vec::new();
    let mut i: usize = 0;
    while i < found.len()
        invariant
            i <= found.len(),
            keys@ == candidate_keys(found@).take(i as int),
        decreases found.len() - i,
    {
        keys.push(latest_first_key(found[i].effective));
        i = i + 1;
        assert(keys@ =~= candidate_keys(found@).take(i as int));
    }
    assert(keys@ =~= candidate_keys(found@));
    let order: Vec<usize> = sort_positions(&keys);
    let mut out: Vec<Candidate> = Vec::new();
    let mut k: usize = 0;
    while k < order.len()
        invariant
            k <= order.len(),
            keys@ == candidate_keys(found@),
            is_stable_order(keys@, order@),
            out@ == rearranged(found@, order@).take(k as int),
        decreases order.len() - k,
    {
        out.push(found[order[k]]);
        k = k + 1;
        assert(out@ =~= rearranged(found@, order@).take(k as int));
    }
    assert(out@ =~= rearranged(found@, order@));
    out
}

} // verus!

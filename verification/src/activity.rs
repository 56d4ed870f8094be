//! Which series a user is watching, and when each was watched last.

use std::collections::HashMap;

use vstd::prelude::*;
use vstd::string::*;

use crate::media::MediaKind;
use crate::sequences::{
    is_stable_order, law_stable_order_exists, law_stable_order_lists_every_position, precedes,
    rearranged, sort_positions, stable_order, SortKey,
};
use crate::time::{
    epoch, parse_rfc3339, parse_timestamp, timestamp_of_rfc3339, timestamp_of_text, Timestamp,
};

verus! {

broadcast use vstd::std_specs::hash::group_hash_axioms;

/// What a user did with one media, and what that media is.
#[derive(Clone, Copy, Debug, PartialEq, Eq, Structural)]
pub struct ActivityRow {
    pub kind: MediaKind,
    pub series_id: Option<u128>,
    pub play_count: i64,
    pub playback_position: i64,
    pub last_played_at: Option<Timestamp>,
    pub played_at: Option<Timestamp>,
}

/// A series that a user is watching.
#[derive(Clone, Copy, Debug, PartialEq, Eq, Structural)]
pub struct ActiveSeries {
    pub series_id: u128,
    pub last_activity: Timestamp,
}

impl ActivityRow {
    /// Whether the row is an episode of a series that was played, or started and not played.
    pub open spec fn active(self) -> bool {
        &&& self.kind == MediaKind::Episode
        &&& self.series_id is Some
        &&& self.play_count > 0 || (self.play_count == 0 && self.playback_position > 0)
    }

    /// When it was last played, else when it was played, else the epoch.
    pub open spec fn activity(self) -> Timestamp {
        match self.last_played_at {
            Some(t) => t,
            None => match self.played_at {
                Some(t) => t,
                None => epoch(),
            },
        }
    }

    fn is_active(&self) -> (r: bool)
        ensures
            r == self.active(),
    {
        self.kind == MediaKind::Episode && self.series_id.is_some() && (self.play_count > 0 || (
        self.play_count == 0 && self.playback_position > 0))
    }

    fn activity_time(&self) -> (r: Timestamp)
        ensures
            r == self.activity(),
    {
        match self.last_played_at {
            Some(t) => t,
            None => match self.played_at {
                Some(t) => t,
                None => Timestamp::unix_epoch(),
            },
        }
    }
}

/// The latest activity in a series; `None` where there is none.
pub open spec fn last_activity(rows: Seq<ActivityRow>, series: u128) -> Option<Timestamp>
    decreases rows.len(),
{
    if rows.len() == 0 {
        None
    } else {
        let before = last_activity(rows.drop_last(), series);
        let row = rows.last();
        if row.active() && row.series_id == Some(series) {
            match before {
                Some(t) => Some(t.latest(row.activity())),
                None => Some(row.activity()),
            }
        } else {
            before
        }
    }
}

/// The series with activity, each once, in the order of their first rows.
pub open spec fn series_with_activity(rows: Seq<ActivityRow>) -> Seq<u128>
    decreases rows.len(),
{
    if rows.len() == 0 {
        Seq::empty()
    } else {
        let before = series_with_activity(rows.drop_last());
        let row = rows.last();
        if row.active() && !before.contains(row.series_id->0) {
            before.push(row.series_id->0)
        } else {
            before
        }
    }
}

/// The series with activity, each with its latest.
pub open spec fn activity_table(rows: Seq<ActivityRow>) -> Seq<ActiveSeries> {
    let ids = series_with_activity(rows);
    Seq::new(
        ids.len(),
        |i: int|
            ActiveSeries { series_id: ids[i], last_activity: last_activity(rows, ids[i])->0 },
    )
}

/// The series whose latest activity is not before `cutoff`.
pub open spec fn not_before(cutoff: Timestamp) -> spec_fn(ActiveSeries) -> bool {
    |s: ActiveSeries| !s.last_activity.earlier(cutoff)
}

/// A key by which later points in time sort first.
pub open spec fn latest_first(t: Timestamp) -> SortKey {
    SortKey { major: (-t.secs) as i128, minor: (-t.nanos) as i128 }
}

/// The keys by which series are listed.
pub open spec fn series_keys(series: Seq<ActiveSeries>) -> Seq<SortKey> {
    Seq::new(series.len(), |i: int| latest_first(series[i].last_activity))
}

/// The point in time from which on activity counts, given as a text: a date and time, also as
/// RFC 3339 has it, or a date alone, which stands for its midnight. It is the epoch where no text is
/// given, and `None` where the text is none of these.
pub open spec fn cutoff_of_text(text: Option<Seq<char>>) -> Option<Timestamp> {
    match text {
        Some(t) => first_read(
            timestamp_of_text(t, "%Y-%m-%d %H:%M:%S"@),
            timestamp_of_rfc3339(t),
            timestamp_of_text(t + " 00:00:00"@, "%Y-%m-%d %H:%M:%S"@),
        ),
        None => Some(epoch()),
    }
}

/// The first of three readings of a text that gave a point in time.
pub open spec fn first_read(
    a: Option<Timestamp>,
    b: Option<Timestamp>,
    c: Option<Timestamp>,
) -> Option<Timestamp> {
    match a {
        Some(_) => a,
        None => match b {
            Some(_) => b,
            None => c,
        },
    }
}

/// The first of three readings of a text that gave a point in time.
pub fn first_reading(a: Option<Timestamp>, b: Option<Timestamp>, c: Option<Timestamp>) -> (r: Option<
    Timestamp,
>)
    ensures
        r == first_read(a, b, c),
{
    match a {
        Some(_) => a,
        None => match b {
            Some(_) => b,
            None => c,
        },
    }
}

/// The point in time from which on activity counts, given as a text.
pub fn next_up_cutoff(text: Option<&str>) -> (r: Option<Timestamp>)
    ensures
        r == cutoff_of_text(
            match text {
                Some(t) => Some(t@),
                None => None,
            },
        ),
{
    match text {
        Some(t) => {
            let mut midnight: String = t.to_owned();
            midnight.append(" 00:00:00");
            first_reading(
                parse_timestamp(t, "%Y-%m-%d %H:%M:%S"),
                parse_rfc3339(t),
                parse_timestamp(midnight.as_str(), "%Y-%m-%d %H:%M:%S"),
            )
        },
        None => Some(Timestamp::unix_epoch()),
    }
}

/// The series that a user is watching: those with activity not before `cutoff`, the latest first.
pub open spec fn watched_series(rows: Seq<ActivityRow>, cutoff: Timestamp) -> Seq<
    ActiveSeries,
> {
    let kept = activity_table(rows).filter(not_before(cutoff));
    rearranged(kept, stable_order(series_keys(kept)))
}

/// A key by which later points in time sort first.
pub fn latest_first_key(t: Timestamp) -> (r: SortKey)
    ensures
        r == latest_first(t),
{
    SortKey { major: -(t.secs as i128), minor: -(t.nanos as i128) }
}

proof fn lemma_series_and_activity(rows: Seq<ActivityRow>, series: u128)
    ensures
        series_with_activity(rows).contains(series) <==> last_activity(rows, series) is Some,
        series_with_activity(rows).no_duplicates(),
    decreases rows.len(),
{
    if rows.len() > 0 {
        lemma_series_and_activity(rows.drop_last(), series);
        let before = series_with_activity(rows.drop_last());
        let row = rows.last();
        if row.active() && !before.contains(row.series_id->0) {
            let id = row.series_id->0;
            let after = before.push(id);
            assert(after[before.len() as int] == id);
            if before.contains(series) {
                let k = choose|k: int| 0 <= k < before.len() && before[k] == series;
                assert(after[k] == series);
            }
            if after.contains(series) {
                let k = choose|k: int| 0 <= k < after.len() && after[k] == series;
                if k < before.len() {
                    assert(before[k] == series);
                }
            }
        }
    }
}

fn tabulate(rows: &Vec<ActivityRow>) -> (r: Vec<ActiveSeries>)
    ensures
        r@ == activity_table(rows@),
{
    let mut table: Vec<ActiveSeries> = Vec::new();
    let mut places: HashMap<u128, usize> = HashMap::new();
    let mut i: usize = 0;
    assert(table@ =~= activity_table(rows@.take(0)));
    while i < rows.len()
        invariant
            i <= rows.len(),
            table@ == activity_table(rows@.take(i as int)),
            forall|id: u128| #[trigger]
                places@.dom().contains(id) <==> series_with_activity(rows@.take(i as int)).contains(
                    id,
                ),
            forall|id: u128| #[trigger]
                places@.dom().contains(id) ==> places@[id] < table.len()
                    && table@[places@[id] as int].series_id == id,
        decreases rows.len() - i,
    {
        let row: ActivityRow = rows[i];
        let ghost seen = rows@.take(i as int);
        let ghost now = rows@.take(i + 1);
        let ghost ids = series_with_activity(seen);
        let ghost before = table@;
        proof {
            assert(now.drop_last() =~= seen);
            assert forall|id: u128| true implies series_with_activity(seen).contains(id)
                <==> #[trigger] last_activity(seen, id) is Some by {
                lemma_series_and_activity(seen, id);
            }
            lemma_series_and_activity(seen, 0);
        }
        if row.is_active() {
            let id: u128 = row.series_id.unwrap();
            let t: Timestamp = row.activity_time();
            match places.get(&id) {
                Some(place) => {
                    let p: usize = *place;
                    let latest: Timestamp = table[p].last_activity.later_of(&t);
                    table.set(p, ActiveSeries { series_id: id, last_activity: latest });
                    proof {
                        assert(ids.contains(id));
                        assert(series_with_activity(now) == ids);
                        assert forall|k: int| 0 <= k < ids.len() implies table@[k]
                            == activity_table(now)[k] by {
                            assert(before[k].series_id == ids[k]);
                            if k != p {
                                assert(ids[k] != ids[p as int]);
                            }
                        }
                        assert(table@ =~= activity_table(now));
                    }
                },
                None => {
                    let p: usize = table.len();
                    table.push(ActiveSeries { series_id: id, last_activity: t });
                    places.insert(id, p);
                    proof {
                        assert(!ids.contains(id));
                        let after = series_with_activity(now);
                        assert(after == ids.push(id));
                        assert(after[ids.len() as int] == id);
                        assert forall|k: int| 0 <= k < after.len() implies table@[k]
                            == activity_table(now)[k] by {
                            if k < ids.len() {
                                assert(before[k].series_id == ids[k]);
                                assert(ids.contains(ids[k]));
                            } else {
                                assert(last_activity(seen, id) is None);
                            }
                        }
                        assert(table@ =~= activity_table(now));
                        assert forall|x: u128| #[trigger] places@.dom().contains(x)
                            <==> after.contains(x) by {
                            if ids.contains(x) {
                                let k = choose|k: int| 0 <= k < ids.len() && ids[k] == x;
                                assert(after[k] == x);
                            }
                            if after.contains(x) && x != id {
                                let k = choose|k: int| 0 <= k < after.len() && after[k] == x;
                                assert(ids[k] == x);
                            }
                        }
                    }
                },
            }
        } else {
            assert(table@ =~= activity_table(now));
        }
        i = i + 1;
    }
    assert(rows@.take(i as int) =~= rows@);
    table
}

/// The series that a user is watching: those with activity not before `cutoff`, the latest first.
pub fn active_series(rows: &Vec<ActivityRow>, cutoff: Timestamp) -> (r: Vec<ActiveSeries>)
    ensures
        r@ == watched_series(rows@, cutoff),
{
    let table: Vec<ActiveSeries> = tabulate(rows);
    let ghost pred = not_before(cutoff);
    let mut kept: Vec<ActiveSeries> = Vec::new();
    let mut keys: Vec<SortKey> = Vec::new();
    let mut i: usize = 0;
    proof {
        reveal(Seq::filter);
        assert(table@.take(0).filter(pred) =~= Seq::<ActiveSeries>::empty());
        assert(keys@ =~= series_keys(kept@));
    }
    while i < table.len()
        invariant
            i <= table.len(),
            pred == not_before(cutoff),
            kept@ == table@.take(i as int).filter(pred),
            keys@ == series_keys(kept@),
        decreases table.len() - i,
    {
        proof {
            assert(table@.take(i + 1) =~= table@.take(i as int).push(table@[i as int]));
            table@.take(i as int).lemma_filter_push(table@[i as int], pred);
        }
        let s: ActiveSeries = table[i];
        if !s.last_activity.is_before(&cutoff) {
            kept.push(s);
            keys.push(latest_first_key(s.last_activity));
            assert(keys@ =~= series_keys(kept@));
        }
        i = i + 1;
    }
    assert(table@.take(i as int) =~= table@);
    let order: Vec<usize> = sort_positions(&keys);
    let mut out: Vec<ActiveSeries> = Vec::new();
    let mut k: usize = 0;
    while k < order.len()
        invariant
            k <= order.len(),
            is_stable_order(keys@, order@),
            keys@ == series_keys(kept@),
            out@ == rearranged(kept@, order@).take(k as int),
        decreases order.len() - k,
    {
        out.push(kept[order[k]]);
        k = k + 1;
        assert(out@ =~= rearranged(kept@, order@).take(k as int));
    }
    assert(out@ =~= rearranged(kept@, order@));
    out
}

// ---------------------------------------------------------------------------------------------
// Laws

/// The latest activity of a series is that of one of its rows, and none of its rows is later.
pub proof fn law_last_activity_is_the_latest(rows: Seq<ActivityRow>, series: u128, i: int)
    requires
        0 <= i < rows.len(),
        rows[i].active(),
        rows[i].series_id == Some(series),
    ensures
        last_activity(rows, series) is Some,
        !(last_activity(rows, series)->0).earlier(rows[i].activity()),
        exists|k: int|
            0 <= k < rows.len() && (#[trigger] rows[k]).active() && rows[k].series_id == Some(
                series,
            ) && rows[k].activity() == last_activity(rows, series)->0,
    decreases rows.len(),
{
    let front = rows.drop_last();
    if i < front.len() {
        law_last_activity_is_the_latest(front, series, i);
    }
    lemma_activity_is_attained(rows, series);
}

proof fn lemma_activity_is_attained(rows: Seq<ActivityRow>, series: u128)
    ensures
        last_activity(rows, series) is Some ==> exists|k: int|
            0 <= k < rows.len() && (#[trigger] rows[k]).active() && rows[k].series_id == Some(
                series,
            ) && rows[k].activity() == last_activity(rows, series)->0,
    decreases rows.len(),
{
    if rows.len() > 0 {
        let front = rows.drop_last();
        lemma_activity_is_attained(front, series);
        assert(rows[rows.len() - 1] == rows.last());
        if last_activity(front, series) is Some {
            let k = choose|k: int|
                0 <= k < front.len() && (#[trigger] front[k]).active() && front[k].series_id
                    == Some(series) && front[k].activity() == last_activity(front, series)->0;
            assert(rows[k] == front[k]);
        }
    }
}

proof fn lemma_kept(rows: Seq<ActivityRow>, cutoff: Timestamp, k: int)
    requires
        0 <= k < activity_table(rows).filter(not_before(cutoff)).len(),
    ensures
        ({
            let s = activity_table(rows).filter(not_before(cutoff))[k];
            &&& series_with_activity(rows).contains(s.series_id)
            &&& last_activity(rows, s.series_id) == Some(s.last_activity)
            &&& !s.last_activity.earlier(cutoff)
        }),
{
    let table = activity_table(rows);
    let pred = not_before(cutoff);
    let kept = table.filter(pred);
    table.lemma_filter_pred(pred, k);
    table.lemma_filter_contains_rev(pred, kept[k]);
    let j = choose|j: int| 0 <= j < table.len() && table[j] == kept[k];
    let ids = series_with_activity(rows);
    assert(ids[j] == kept[k].series_id);
    lemma_series_and_activity(rows, ids[j]);
}

proof fn lemma_no_more_series_than_rows(rows: Seq<ActivityRow>)
    ensures
        series_with_activity(rows).len() <= rows.len(),
    decreases rows.len(),
{
    if rows.len() > 0 {
        lemma_no_more_series_than_rows(rows.drop_last());
    }
}

/// The series are listed from the latest activity to the earliest, each with its own latest
/// activity, which is not before the cutoff.
pub proof fn law_series_are_listed_latest_first(
    rows: Seq<ActivityRow>,
    cutoff: Timestamp,
    i: int,
    j: int,
)
    requires
        rows.len() <= usize::MAX,
        0 <= i <= j < watched_series(rows, cutoff).len(),
    ensures
        ({
            let list = watched_series(rows, cutoff);
            &&& !list[i].last_activity.earlier(list[j].last_activity)
            &&& last_activity(rows, list[i].series_id) == Some(list[i].last_activity)
            &&& !list[i].last_activity.earlier(cutoff)
        }),
{
    let kept = activity_table(rows).filter(not_before(cutoff));
    let keys = series_keys(kept);
    let order = stable_order(keys);
    lemma_no_more_series_than_rows(rows);
    activity_table(rows).lemma_filter_len(not_before(cutoff));
    law_stable_order_exists(keys);
    assert(order[i] < keys.len() && order[j] < keys.len());
    lemma_kept(rows, cutoff, order[i] as int);
    if i < j {
        assert(precedes(keys, order[i], order[j]));
    }
}

/// No series is listed twice.
pub proof fn law_series_are_listed_once(
    rows: Seq<ActivityRow>,
    cutoff: Timestamp,
    i: int,
    j: int,
)
    requires
        rows.len() <= usize::MAX,
        0 <= i < j < watched_series(rows, cutoff).len(),
    ensures
        watched_series(rows, cutoff)[i].series_id != watched_series(rows, cutoff)[j].series_id,
{
    let table = activity_table(rows);
    let pred = not_before(cutoff);
    let kept = table.filter(pred);
    let keys = series_keys(kept);
    let order = stable_order(keys);
    lemma_no_more_series_than_rows(rows);
    table.lemma_filter_len(pred);
    law_stable_order_exists(keys);
    lemma_series_and_activity(rows, 0);
    lemma_distinct_after_filter(table, pred);
    assert(order[i] < keys.len() && order[j] < keys.len());
    assert(precedes(keys, order[i], order[j]));
    let a = order[i] as int;
    let b = order[j] as int;
    assert(kept[a].series_id != kept[b].series_id);
}

proof fn lemma_distinct_after_filter(
    table: Seq<ActiveSeries>,
    pred: spec_fn(ActiveSeries) -> bool,
)
    requires
        forall|a: int, b: int|
            0 <= a < b < table.len() ==> (#[trigger] table[a]).series_id != (
            #[trigger] table[b]).series_id,
    ensures
        forall|a: int, b: int|
            0 <= a < table.filter(pred).len() && 0 <= b < table.filter(pred).len() && a != b ==> (
            #[trigger] table.filter(pred)[a]).series_id != (
            #[trigger] table.filter(pred)[b]).series_id,
    decreases table.len(),
{
    reveal(Seq::filter);
    if table.len() > 0 {
        let front = table.drop_last();
        let last = table.last();
        assert forall|a: int, b: int| 0 <= a < b < front.len() implies (
        #[trigger] front[a]).series_id != (#[trigger] front[b]).series_id by {
            assert(table[a].series_id != table[b].series_id);
        }
        lemma_distinct_after_filter(front, pred);
        let early = front.filter(pred);
        assert forall|a: int| 0 <= a < early.len() implies (#[trigger] early[a]).series_id
            != last.series_id by {
            assert(early.contains(early[a]));
            front.lemma_filter_contains_rev(pred, early[a]);
            let k = choose|k: int| 0 <= k < front.len() && front[k] == early[a];
            assert(table[k].series_id != table[table.len() - 1].series_id);
        }
    }
}

/// Where no cutoff is given, rows without any date are late enough: a series watched without dates
/// stays listed.
pub proof fn law_series_without_dates_stay_listed(rows: Seq<ActivityRow>, series: u128, i: int)
    requires
        rows.len() <= usize::MAX,
        0 <= i < rows.len(),
        rows[i].active(),
        rows[i].series_id == Some(series),
        rows[i].last_played_at is None,
        rows[i].played_at is None,
    ensures
        cutoff_of_text(None) is Some,
        exists|k: int|
            0 <= k < watched_series(rows, cutoff_of_text(None)->0).len() && (
            #[trigger] watched_series(rows, cutoff_of_text(None)->0)[k]).series_id == series,
{
    law_last_activity_is_the_latest(rows, series, i);
    law_every_watched_series_is_listed(rows, cutoff_of_text(None)->0, series);
}

/// Every series with activity not before the cutoff is listed.
pub proof fn law_every_watched_series_is_listed(
    rows: Seq<ActivityRow>,
    cutoff: Timestamp,
    series: u128,
)
    requires
        rows.len() <= usize::MAX,
        last_activity(rows, series) matches Some(t) && !t.earlier(cutoff),
    ensures
        exists|i: int|
            0 <= i < watched_series(rows, cutoff).len() && (#[trigger] watched_series(
                rows,
                cutoff,
            )[i]).series_id == series,
{
    let table = activity_table(rows);
    let pred = not_before(cutoff);
    let kept = table.filter(pred);
    let keys = series_keys(kept);
    let order = stable_order(keys);
    lemma_no_more_series_than_rows(rows);
    table.lemma_filter_len(pred);
    law_stable_order_exists(keys);
    lemma_series_and_activity(rows, series);
    let ids = series_with_activity(rows);
    let j = choose|j: int| 0 <= j < ids.len() && ids[j] == series;
    table.lemma_filter_contains(pred, j);
    let k = choose|k: int| 0 <= k < kept.len() && kept[k] == table[j];
    law_stable_order_lists_every_position(keys, order, k as usize);
    let i = choose|i: int| 0 <= i < order.len() && order[i] == k as usize;
    assert(watched_series(rows, cutoff)[i].series_id == series);
}

} // verus!

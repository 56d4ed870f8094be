use chrono::NaiveDate;
use remux_library::activity::{
    active_series, first_reading, next_up_cutoff, ActiveSeries, ActivityRow,
};
use remux_library::media::MediaKind;
use remux_library::nextup::{
    next_in_series, next_up_candidates, state_batches, watch_order, Candidate, Episode,
    UserMediaState,
};
use remux_library::time::Timestamp;

const DAY: i64 = 86_400;

fn at(year: i32, month: u32, day: u32, hour: u32) -> Timestamp {
    let secs = NaiveDate::from_ymd_opt(year, month, day)
        .unwrap()
        .and_hms_opt(hour, 0, 0)
        .unwrap()
        .and_utc()
        .timestamp();
    Timestamp { secs, nanos: 0 }
}

fn epoch() -> Timestamp {
    Timestamp { secs: 0, nanos: 0 }
}

fn watched(
    series: u128,
    played_at: Option<Timestamp>,
    last_played_at: Option<Timestamp>,
) -> ActivityRow {
    ActivityRow {
        kind: MediaKind::Episode,
        series_id: Some(series),
        play_count: 1,
        playback_position: 0,
        last_played_at,
        played_at,
    }
}

fn series_ids(rows: &Vec<ActivityRow>, cutoff: Option<&str>) -> Vec<u128> {
    let cutoff = next_up_cutoff(cutoff).unwrap();
    active_series(rows, cutoff).iter().map(|s| s.series_id).collect()
}

fn episode(id: u128, series: u128, number: i64) -> Episode {
    Episode {
        id,
        series_id: Some(series),
        parent_idx: Some(1),
        idx: Some(number),
        digital_released_at: Some(at(2020, 1, 1, 0)),
        released_at: None,
    }
}

fn state(media_id: u128, play_count: i64, playback_position: i64) -> UserMediaState {
    UserMediaState { media_id, play_count, playback_position }
}

fn next(episodes: &Vec<Episode>, states: &Vec<UserMediaState>) -> Option<u128> {
    next_in_series(episodes, states, None, None).map(|e| e.id)
}

fn ids(candidates: &Vec<Candidate>) -> Vec<u128> {
    candidates.iter().map(|c| c.episode.id).collect()
}

#[test]
fn shows_nextup_orders_by_last_played_desc() {
    let a = at(2026, 6, 16, 8);
    let b = at(2026, 6, 17, 12);
    let rows = vec![watched(1, Some(a), Some(a)), watched(2, Some(b), Some(b))];
    assert_eq!(series_ids(&rows, None), vec![2, 1]);
}

#[test]
fn shows_nextup_accepts_rfc3339_cutoff() {
    let old = at(2026, 6, 17, 12);
    let new = at(2026, 6, 18, 12);
    let rows = vec![watched(1, Some(old), Some(old)), watched(2, Some(new), Some(new))];
    assert_eq!(series_ids(&rows, Some("2026-06-17T23:00:00Z")), vec![2]);
}

#[test]
fn shows_nextup_falls_back_to_played_at_when_last_played_at_is_null() {
    let legacy = at(2026, 6, 18, 12);
    let newer = at(2026, 6, 17, 12);
    let rows = vec![watched(1, Some(legacy), None), watched(2, Some(newer), Some(newer))];
    assert_eq!(series_ids(&rows, Some("2026-06-18")), vec![1]);
}

#[test]
fn shows_nextup_new_episode_bubbles_to_top() {
    let now = at(2026, 6, 20, 12);
    let ago = |days: i64| Timestamp { secs: now.secs - days * DAY, nanos: 0 };
    let rows = vec![
        watched(1, Some(ago(90)), Some(ago(90))),
        watched(2, Some(ago(7)), Some(ago(7))),
    ];
    let series = active_series(&rows, epoch());
    assert_eq!(series[0].series_id, 2);
    let mut a2 = episode(12, 1, 2);
    a2.digital_released_at = Some(ago(1));
    let mut b2 = episode(22, 2, 2);
    b2.digital_released_at = None;
    b2.released_at = None;
    let episodes = vec![episode(11, 1, 1), a2, episode(21, 2, 1), b2];
    let states = vec![state(11, 1, 0), state(21, 1, 0)];
    let list = next_up_candidates(&series, &episodes, &states, None);
    assert_eq!(ids(&list), vec![12, 22]);
    assert_eq!(list[0].effective, ago(1));
    assert_eq!(list[1].effective, ago(7));
}

#[test]
fn nextup_returns_episode_after_last_played_default_enable_resumable() {
    let now = at(2026, 6, 20, 12);
    let series = active_series(&vec![watched(1, Some(now), Some(now))], epoch());
    let episodes = vec![episode(1, 1, 1), episode(2, 1, 2), episode(3, 1, 3)];
    let list = next_up_candidates(&series, &episodes, &vec![state(1, 1, 0)], None);
    assert_eq!(ids(&list), vec![2]);
    assert_eq!(next(&episodes, &vec![state(1, 1, 0)]), Some(2));
}

#[test]
fn nextup_enable_resumable_false_returns_episode_after_last_played() {
    let now = at(2026, 6, 20, 12);
    let series = active_series(&vec![watched(1, Some(now), Some(now))], epoch());
    let episodes = vec![episode(1, 1, 1), episode(2, 1, 2), episode(3, 1, 3)];
    let list = next_up_candidates(&series, &episodes, &vec![state(1, 1, 0)], Some(false));
    assert_eq!(ids(&list), vec![2]);
}

#[test]
fn nextup_in_progress_episode_returned_when_enable_resumable_true() {
    let now = at(2026, 6, 20, 12);
    let mut row = watched(1, None, Some(now));
    row.play_count = 0;
    row.playback_position = 1800;
    let series = active_series(&vec![row], epoch());
    let episodes = vec![episode(1, 1, 1), episode(2, 1, 2)];
    let states = vec![state(1, 0, 1800)];
    assert_eq!(ids(&next_up_candidates(&series, &episodes, &states, None)), vec![1]);
    assert_eq!(next(&episodes, &states), Some(1));
}

#[test]
fn nextup_with_null_play_dates_still_returns_results() {
    let series = active_series(&vec![watched(1, None, None)], next_up_cutoff(None).unwrap());
    assert_eq!(series, vec![ActiveSeries { series_id: 1, last_activity: epoch() }]);
    let episodes = vec![episode(1, 1, 1), episode(2, 1, 2), episode(3, 1, 3)];
    let list = next_up_candidates(&series, &episodes, &vec![state(1, 1, 0)], None);
    assert_eq!(ids(&list), vec![2]);
}

#[test]
fn nextup_lists_no_episode_that_was_left_out() {
    let series = active_series(&vec![watched(1, None, None)], epoch());
    let list = next_up_candidates(&series, &vec![episode(1, 1, 1)], &vec![state(1, 1, 0)], None);
    assert!(list.is_empty());
    assert_eq!(next(&vec![episode(1, 1, 1)], &vec![state(1, 1, 0)]), None);
}

#[test]
fn cutoffs_are_dates_and_times() {
    assert_eq!(next_up_cutoff(None), Some(epoch()));
    assert_eq!(next_up_cutoff(Some("1970-01-01 00:00:00")), Some(epoch()));
    assert_eq!(next_up_cutoff(Some("2026-06-17 23:00:00")), Some(at(2026, 6, 17, 23)));
    assert_eq!(next_up_cutoff(Some("2026-06-17")), Some(at(2026, 6, 17, 0)));
    assert_eq!(next_up_cutoff(Some("2026-06-17T23:00:00Z")), Some(at(2026, 6, 17, 23)));
    assert_eq!(next_up_cutoff(Some("2026-06-17T23:00:00+02:00")), Some(at(2026, 6, 17, 21)));
    assert_eq!(next_up_cutoff(Some("2026-06-31")), None);
    assert_eq!(next_up_cutoff(Some("")), None);
    assert_eq!(next_up_cutoff(Some("soon")), None);
}

#[test]
fn first_reading_counts() {
    let one = Some(at(2026, 1, 1, 0));
    let two = Some(at(2026, 1, 2, 0));
    assert_eq!(first_reading(one, two, None), one);
    assert_eq!(first_reading(None, two, one), two);
    assert_eq!(first_reading(None, None, one), one);
    assert_eq!(first_reading(None, None, None), None);
}

#[test]
fn only_started_episodes_of_series_are_activity() {
    let now = at(2026, 6, 20, 12);
    let mut movie = watched(1, Some(now), Some(now));
    movie.kind = MediaKind::Movie;
    let mut loose = watched(2, Some(now), Some(now));
    loose.series_id = None;
    let mut untouched = watched(3, Some(now), Some(now));
    untouched.play_count = 0;
    let mut started = watched(4, Some(now), Some(now));
    started.play_count = 0;
    started.playback_position = 1;
    assert_eq!(series_ids(&vec![movie, loose, untouched, started], None), vec![4]);
}

#[test]
fn latest_activity_of_a_series_counts() {
    let old = at(2026, 6, 1, 0);
    let mid = at(2026, 6, 2, 0);
    let new = at(2026, 6, 3, 0);
    let rows = vec![
        watched(1, None, Some(old)),
        watched(2, None, Some(mid)),
        watched(1, Some(old), Some(new)),
        watched(1, Some(new), Some(mid)),
    ];
    assert_eq!(
        active_series(&rows, epoch()),
        vec![
            ActiveSeries { series_id: 1, last_activity: new },
            ActiveSeries { series_id: 2, last_activity: mid },
        ],
    );
    assert_eq!(series_ids(&rows, Some("2026-06-03 00:00:00")), vec![1]);
}

#[test]
fn activity_before_the_epoch_is_no_activity_without_a_cutoff() {
    let rows = vec![watched(1, None, Some(Timestamp { secs: -1, nanos: 0 }))];
    assert!(active_series(&rows, epoch()).is_empty());
    let early = Timestamp { secs: -2, nanos: 0 };
    assert_eq!(active_series(&rows, early)[0].last_activity.secs, -1);
}

#[test]
fn watch_order_goes_by_season_and_number() {
    let place = |id: u128, parent_idx: Option<i64>, idx: Option<i64>| Episode {
        id,
        series_id: Some(1),
        parent_idx,
        idx,
        digital_released_at: None,
        released_at: None,
    };
    let episodes = vec![
        place(1, None, Some(1)),
        place(2, Some(2), Some(1)),
        place(3, Some(1), None),
        place(4, Some(1), Some(2)),
        place(5, Some(0), Some(7)),
        place(6, Some(1), Some(2)),
    ];
    let order: Vec<u128> = watch_order(&episodes).iter().map(|e| e.id).collect();
    assert_eq!(order, vec![5, 4, 6, 3, 2, 1]);
}

#[test]
fn unwatched_series_starts_after_the_specials() {
    let mut special = episode(1, 1, 1);
    special.parent_idx = Some(0);
    let first = episode(2, 1, 1);
    assert_eq!(next(&vec![first, special], &vec![]), Some(2));
    assert_eq!(next(&vec![special], &vec![]), Some(1));
    assert_eq!(next(&vec![], &vec![]), None);
    let hidden = next_in_series(&vec![first], &vec![], None, Some(true));
    assert!(hidden.is_none());
}

#[test]
fn unwatched_series_are_not_in_the_list() {
    let series = vec![ActiveSeries { series_id: 1, last_activity: epoch() }];
    let list = next_up_candidates(&series, &vec![episode(1, 1, 1)], &vec![], None);
    assert!(list.is_empty());
    assert!(next_up_candidates(&series, &vec![], &vec![], None).is_empty());
}

#[test]
fn episode_under_way_comes_first_only_with_resuming() {
    let episodes = vec![episode(1, 1, 1), episode(2, 1, 2), episode(3, 1, 3)];
    let states = vec![state(1, 0, 60), state(2, 1, 0)];
    assert_eq!(next(&episodes, &states), Some(1));
    let skipped = next_in_series(&episodes, &states, Some(false), None).map(|e| e.id);
    assert_eq!(skipped, Some(3));
    let series = vec![ActiveSeries { series_id: 1, last_activity: epoch() }];
    let list = next_up_candidates(&series, &episodes, &states, Some(false));
    assert_eq!(ids(&list), vec![3]);
    let states = vec![state(2, 1, 0), state(3, 0, 60)];
    assert!(next_up_candidates(&series, &episodes, &states, Some(false)).is_empty());
    let alone = next_in_series(&episodes, &states, Some(false), None).map(|e| e.id);
    assert_eq!(alone, Some(3));
}

#[test]
fn states_are_fetched_in_batches() {
    let episodes: Vec<Episode> = (0..1000).map(|i| episode(i, 1, i as i64)).collect();
    let batches = state_batches(&episodes);
    assert_eq!(batches.iter().map(|b| b.len()).collect::<Vec<_>>(), vec![900, 100]);
    assert_eq!(batches[1][0], 900);
}

#[test]
fn equal_points_in_time_keep_the_order_of_the_series() {
    let series = vec![
        ActiveSeries { series_id: 2, last_activity: at(2026, 1, 1, 0) },
        ActiveSeries { series_id: 1, last_activity: at(2026, 1, 1, 0) },
    ];
    let episodes = vec![episode(11, 1, 1), episode(12, 1, 2), episode(21, 2, 1), episode(22, 2, 2)];
    let states = vec![state(11, 1, 0), state(21, 2, 0)];
    assert_eq!(ids(&next_up_candidates(&series, &episodes, &states, None)), vec![22, 12]);
}

#[test]
fn list_and_lookup_agree() {
    let mut unnumbered = episode(13, 1, 0);
    unnumbered.idx = None;
    let episodes = vec![
        episode(22, 2, 2),
        unnumbered,
        episode(12, 1, 2),
        episode(31, 3, 1),
        episode(21, 2, 1),
        episode(11, 1, 1),
    ];
    let states = vec![state(12, 1, 0), state(21, 0, 60), state(31, 1, 0)];
    let series: Vec<ActiveSeries> = [1, 2, 3]
        .iter()
        .map(|id| ActiveSeries { series_id: *id, last_activity: epoch() })
        .collect();
    let list = next_up_candidates(&series, &episodes, &states, None);
    for (id, expected) in [(1, Some(13)), (2, Some(21)), (3, None)] {
        let own: Vec<Episode> =
            episodes.iter().copied().filter(|e| e.series_id == Some(id)).collect();
        let own_states: Vec<UserMediaState> = states
            .iter()
            .copied()
            .filter(|s| own.iter().any(|e| e.id == s.media_id))
            .collect();
        let listed: Vec<u128> = list
            .iter()
            .filter(|c| c.episode.series_id == Some(id))
            .map(|c| c.episode.id)
            .collect();
        assert_eq!(next(&own, &own_states), expected);
        assert_eq!(listed, expected.into_iter().collect::<Vec<u128>>());
    }
}

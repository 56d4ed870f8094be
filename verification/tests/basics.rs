use remux_library::counts::KindCounts;
use remux_library::lookup::{index_ids, index_pairs, listed};
use remux_library::media::{is_top_level, CatalogItem, MediaKind};
use remux_library::number::{decimal_text, parse_i64};
use remux_library::sequences::{in_batches, sort_positions, SortKey};
use remux_library::text::{same_ignoring_ascii_case, same_text, trim};
use remux_library::time::Timestamp;
use std::collections::HashSet;

#[test]
fn decimal_numbers_read_back() {
    for n in [0, 7, 10, -1, 27205, i64::MAX, i64::MIN] {
        assert_eq!(decimal_text(n), n.to_string());
        assert_eq!(parse_i64(&n.to_string()), Some(n));
    }
}

#[test]
fn numbers_are_read_as_std_reads_them() {
    for s in [
        "", "+", "-", "+5", "-0", "007", " 5", "5 ", "5a", "--5", "+-5", "1_000", "9223372036854775807",
        "9223372036854775808", "-9223372036854775808", "-9223372036854775809", "٣",
        "00000000000000000000000000000000000000000001",
    ] {
        assert_eq!(parse_i64(s), s.parse::<i64>().ok(), "{s:?}");
    }
}

#[test]
fn kinds_read_back_from_their_names() {
    for kind in [
        MediaKind::Movie,
        MediaKind::Series,
        MediaKind::Season,
        MediaKind::Episode,
        MediaKind::Artist,
        MediaKind::Album,
        MediaKind::Track,
        MediaKind::Playlist,
        MediaKind::TvChannel,
        MediaKind::Collection,
        MediaKind::Stream,
        MediaKind::Other,
    ] {
        assert_eq!(MediaKind::from_name(kind.name()), kind);
    }
    assert_eq!(MediaKind::from_name("Movie"), MediaKind::Other);
    assert_eq!(MediaKind::TvChannel.name(), "tv_channel");
    assert!(is_top_level(MediaKind::Playlist));
    assert!(!is_top_level(MediaKind::Collection));
}

#[test]
fn counts_go_by_kind() {
    let mut counts = KindCounts::new();
    assert!(counts.is_empty());
    counts.record(MediaKind::Movie);
    counts.record_all(&vec![
        CatalogItem { handle: 0, id: 1, kind: MediaKind::Movie, relations: 0 },
        CatalogItem { handle: 1, id: 2, kind: MediaKind::Album, relations: 0 },
    ]);
    assert_eq!(counts.get(MediaKind::Movie), Some(2));
    assert_eq!(counts.get(MediaKind::Album), Some(1));
    assert_eq!(counts.get(MediaKind::Series), None);
    assert_eq!(counts.total(), 3);
    assert!(!counts.is_empty());
}

#[test]
fn batches_lose_nothing() {
    assert_eq!(in_batches(&vec![1, 2, 3, 4, 5], 2), vec![vec![1, 2], vec![3, 4], vec![5]]);
    assert_eq!(in_batches(&vec![1, 2], 2), vec![vec![1, 2]]);
    assert!(in_batches(&Vec::<u8>::new(), 2).is_empty());
}

#[test]
fn sorting_is_stable() {
    let key = |major: i128, minor: i128| SortKey { major, minor };
    let keys = vec![key(2, 0), key(1, 5), key(1, 5), key(1, 4), key(2, 0)];
    assert_eq!(sort_positions(&keys), vec![3, 1, 2, 0, 4]);
    assert!(sort_positions(&vec![]).is_empty());
}

#[test]
fn later_pairs_count() {
    let m = index_pairs(&vec![(1, 'a'), (2, 'b'), (1, 'c')]);
    assert_eq!(m.len(), 2);
    assert_eq!(m.get(&1), Some(&'c'));
    assert_eq!(index_ids(&vec![3, 3, 4]), HashSet::from([3, 4]));
    let mut ids = listed(&HashSet::from([5, 6, 7]));
    ids.sort();
    assert_eq!(ids, vec![5, 6, 7]);
}

#[test]
fn text_is_trimmed_and_compared() {
    assert_eq!(trim(" \t a b\u{3000}\n"), "a b");
    assert_eq!(trim("   "), "");
    assert_eq!(trim("ä"), "ä");
    assert!(same_text("äb", "äb"));
    assert!(!same_text("a", "ab"));
    assert!(!same_text("a", "A"));
    assert!(same_ignoring_ascii_case("EN", "en"));
    assert!(!same_ignoring_ascii_case("Ä", "ä"));
    assert!(!same_ignoring_ascii_case("en", "eng"));
}

#[test]
fn points_in_time_are_ordered() {
    let a = Timestamp { secs: 5, nanos: 9 };
    let b = Timestamp { secs: 6, nanos: 0 };
    assert!(a.is_before(&b));
    assert!(!b.is_before(&a));
    assert!(!a.is_before(&a));
    assert_eq!(a.later_of(&b), b);
    assert_eq!(b.later_of(&a), b);
    assert_eq!(Timestamp { secs: 86_399, nanos: 1 }.start_of_day(), Timestamp::unix_epoch());
    assert_eq!(
        Timestamp { secs: -86_401, nanos: 1 }.start_of_day(),
        Timestamp { secs: -172_800, nanos: 0 },
    );
}

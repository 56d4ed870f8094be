use remux_library::catalog::{catalog_collection_id, catalog_membership};
use remux_library::cleanup::{
    prune_orphaned_playlists, prune_stale_iptv_channels, remove_stale_catalog_memberships,
    Deletion, Prune, StoredRow, PRUNE_CHUNK,
};
use remux_library::media::MediaKind;
use remux_library::time::Timestamp;
use std::collections::HashSet;

fn set(ids: &[u128]) -> HashSet<u128> {
    ids.iter().copied().collect()
}

#[test]
fn membership_of_addon_ids() {
    assert_eq!(catalog_membership("addon:abc:top"), Some(("abc", "top")));
    assert_eq!(catalog_membership("addon:abc:top:movies"), Some(("abc", "top:movies")));
    assert_eq!(catalog_membership("addon::"), Some(("", "")));
    assert_eq!(catalog_membership("addon:abc"), None);
    assert_eq!(catalog_membership("Addon:abc:top"), None);
    assert_eq!(catalog_membership("top"), None);
    assert_eq!(catalog_membership(""), None);
}

#[test]
fn collection_ids_are_name_based() {
    let addon = uuid::Uuid::from_u128(0x1234_5678_9abc_4def_8123_4567_89ab_cdef);
    let expected = uuid::Uuid::new_v5(&addon, "töp".as_bytes()).as_u128();
    assert_eq!(catalog_collection_id(&format!("addon:{addon}:töp")), expected);
    assert_ne!(expected, addon.as_u128());
    assert_eq!(
        catalog_collection_id(&format!("addon:{}:töp", addon.simple())),
        expected,
    );
    assert_eq!(catalog_collection_id("addon:zzz:top"), 0);
    assert_eq!(catalog_collection_id("top"), 0);
}

#[test]
fn only_stale_collections_of_the_domain_lose_members() {
    let removed =
        remove_stale_catalog_memberships(&vec![1, 2, 3, 4], &set(&[1]), &set(&[1, 2, 5]));
    assert_eq!(removed, vec![2]);
    assert!(remove_stale_catalog_memberships(&vec![], &set(&[]), &set(&[1])).is_empty());
}

#[test]
fn separate_domains_leave_each_other_alone() {
    let existing = vec![1, 2, 10, 11];
    let library = remove_stale_catalog_memberships(&existing, &set(&[1]), &set(&[1, 2]));
    let iptv = remove_stale_catalog_memberships(&existing, &set(&[10]), &set(&[10, 11]));
    assert_eq!(library, vec![2]);
    assert_eq!(iptv, vec![11]);
}

#[test]
fn pruning_deletes_relations_before_playlists() {
    let (run, action) = prune_orphaned_playlists(&set(&[1]), &set(&[1, 2]));
    match action {
        Prune::Find(ids) => assert_eq!(ids, vec![2]),
        _ => panic!("a lookup was expected"),
    }
    let (_, action) = run.step(Some(vec![7, 8]));
    match action {
        Prune::Delete(rows) => assert_eq!(
            rows,
            vec![
                Deletion::Relations(7),
                Deletion::Media(7),
                Deletion::Relations(8),
                Deletion::Media(8),
            ],
        ),
        _ => panic!("deletions were expected"),
    }
}

#[test]
fn pruning_asks_in_batches_and_stops_on_failure() {
    let domain: Vec<u128> = (1..=1200).collect();
    let (run, action) = prune_orphaned_playlists(&set(&[]), &set(&domain));
    let mut asked: Vec<u128> = Vec::new();
    match action {
        Prune::Find(ids) => {
            assert_eq!(ids.len(), PRUNE_CHUNK);
            asked.extend(ids);
        }
        _ => panic!("a lookup was expected"),
    }
    let (run, action) = run.step(Some(vec![5]));
    match action {
        Prune::Find(ids) => asked.extend(ids),
        _ => panic!("a second lookup was expected"),
    }
    let (run, action) = run.step(Some(vec![]));
    match action {
        Prune::Find(ids) => {
            assert_eq!(ids.len(), 200);
            asked.extend(ids);
        }
        _ => panic!("a third lookup was expected"),
    }
    asked.sort();
    assert_eq!(asked, domain);
    let (_, action) = run.step(None);
    assert!(matches!(action, Prune::Finish));
}

#[test]
fn pruning_without_orphans_finishes() {
    let (_, action) = prune_orphaned_playlists(&set(&[1, 2]), &set(&[1, 2]));
    assert!(matches!(action, Prune::Finish));
    let (run, _) = prune_orphaned_playlists(&set(&[]), &set(&[1]));
    let (_, action) = run.step(Some(vec![]));
    assert!(matches!(action, Prune::Finish));
}

#[test]
fn channels_not_stored_since_the_cutoff_go() {
    let row = |id: u128, kind: MediaKind, secs: i64, nanos: u32| StoredRow {
        id,
        kind,
        updated_at: Timestamp { secs, nanos },
    };
    let cutoff = Timestamp { secs: 100, nanos: 5 };
    let rows = vec![
        row(1, MediaKind::TvChannel, 99, 999),
        row(2, MediaKind::TvChannel, 100, 4),
        row(3, MediaKind::TvChannel, 100, 5),
        row(4, MediaKind::TvChannel, 101, 0),
        row(5, MediaKind::Movie, 1, 0),
    ];
    assert_eq!(prune_stale_iptv_channels(&rows, cutoff), vec![1, 2]);
}

#[test]
fn pruning_comes_before_the_removal_of_memberships() {
    // (collection, playlist) rows, and what a lookup finds among them.
    let rows: Vec<(u128, u128)> = vec![(1, 71), (2, 72), (3, 73), (2, 71)];
    let find = |rows: &Vec<(u128, u128)>, asked: &Vec<u128>| -> Vec<u128> {
        rows.iter().filter(|r| asked.contains(&r.0)).map(|r| r.1).collect()
    };
    let valid = set(&[1]);
    let domain = set(&[1, 2]);
    let prune = |rows: &Vec<(u128, u128)>| -> Vec<Deletion> {
        let (mut run, mut action) = prune_orphaned_playlists(&valid, &domain);
        loop {
            match action {
                Prune::Find(ids) => (run, action) = run.step(Some(find(rows, &ids))),
                Prune::Delete(deletions) => return deletions,
                Prune::Finish => return vec![],
            }
        }
    };
    assert_eq!(
        prune(&rows),
        vec![
            Deletion::Relations(72),
            Deletion::Media(72),
            Deletion::Relations(71),
            Deletion::Media(71),
        ],
    );
    let removed = remove_stale_catalog_memberships(&vec![1, 2, 3], &valid, &domain);
    let left: Vec<(u128, u128)> =
        rows.iter().copied().filter(|r| !removed.contains(&r.0)).collect();
    assert_eq!(left, vec![(1, 71), (3, 73)]);
    assert!(prune(&left).is_empty());
}

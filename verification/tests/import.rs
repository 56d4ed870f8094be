use remux_library::import::{
    import_catalog_items, Action, Event, ImportAction, ImportRun, RELATION_CHUNK, STALE_CHUNK,
    STREAM_CHUNK, TAG_CHUNK,
};
use remux_library::import_rules::{RelationRow, TagRow};
use remux_library::media::{CatalogItem, MediaKind};
use remux_library::metadata::{MetaPass, PassDepth};
use std::collections::HashSet;

fn item(handle: usize, id: u128, kind: MediaKind) -> CatalogItem {
    CatalogItem { handle, id, kind, relations: 0 }
}

fn relation_id(collection: u128, member: u128) -> u128 {
    uuid::Uuid::new_v5(
        &uuid::Uuid::from_u128(collection),
        uuid::Uuid::from_u128(member).as_bytes(),
    )
    .as_u128()
}

fn catalog() -> (String, u128) {
    let addon = uuid::Uuid::new_v4();
    let collection = uuid::Uuid::new_v5(&addon, b"test").as_u128();
    (format!("addon:{addon}:test"), collection)
}

/// Drives one chunk up to the metadata pass, and gives back the items handed to it.
fn until_metadata(
    run: ImportRun,
    items: Vec<CatalogItem>,
    rows: Vec<(u128, MediaKind)>,
    found: Vec<Option<u128>>,
) -> (ImportRun, Vec<CatalogItem>) {
    let (run, action) = run.step(Event::Chunk(Some(items)));
    match action {
        Action::LookupIds(_) => {}
        _ => panic!("a lookup of ids was expected"),
    }
    let (run, action) = run.step(Event::Rows(rows));
    match action {
        Action::Match { .. } => {}
        _ => panic!("a match by external ids was expected"),
    }
    let (run, action) = run.step(Event::Matched(found));
    match action {
        Action::FetchMetadata(new, pass) => {
            assert_eq!(pass, MetaPass { depth: PassDepth::Tree, force: true });
            (run, new)
        }
        _ => panic!("a metadata pass was expected"),
    }
}

fn write(
    run: ImportRun,
    remap: Vec<(u128, u128)>,
    tags: usize,
) -> (ImportRun, Vec<u128>, Vec<CatalogItem>, Vec<CatalogItem>, Vec<Vec<RelationRow>>, Vec<Vec<TagRow>>)
{
    let (run, action) = run.step(Event::Metadata { remap: Some(remap), tags });
    match action {
        Action::Write { reconcile, channels, playlists, rebuild, relations, tags } => {
            assert_eq!(rebuild, MetaPass { depth: PassDepth::Tree, force: false });
            (run, reconcile, channels, playlists, relations, tags)
        }
        _ => panic!("writes were expected"),
    }
}

fn is_pull(action: &ImportAction) -> Option<usize> {
    match action {
        Action::Pull(n) => Some(*n),
        _ => None,
    }
}

#[test]
fn catalog_matches_external_ids_before_partitioning_and_membership() {
    let (media_id, collection) = catalog();
    let stored = 446201u128;
    for stub in [1u128, 2, 3, 4, 5] {
        let (run, action) = import_catalog_items(&media_id, 10);
        assert_eq!(is_pull(&action), Some(10));
        let (run, new) = until_metadata(
            run,
            vec![item(0, stub, MediaKind::Series)],
            vec![],
            vec![Some(stored)],
        );
        assert!(new.is_empty(), "existing content must skip metadata processing");
        let (run, reconcile, _, _, relations, _) = write(run, vec![], 0);
        assert!(reconcile.is_empty());
        assert_eq!(
            relations,
            vec![vec![RelationRow {
                relation_id: relation_id(collection, stored),
                collection_id: collection,
                weight: 0,
                item_id: stored,
            }]],
        );
        let (run, action) = run.step(Event::Written);
        assert_eq!(is_pull(&action), Some(9));
        let (counts, new_counts) = run.counts();
        assert_eq!(counts.get(MediaKind::Series), Some(1));
        assert!(new_counts.is_empty(), "existing content must skip metadata processing");
        let (run, action) = run.step(Event::Chunk(None));
        assert!(matches!(action, Action::FetchMembers(c) if c == collection));
        let (_, action) = run.step(Event::Members(vec![stored]));
        assert!(matches!(action, Action::Finish));
    }

    let fresh = 446204u128;
    let (run, _) = import_catalog_items(&media_id, 10);
    let (run, new) =
        until_metadata(run, vec![item(0, fresh, MediaKind::Series)], vec![], vec![None]);
    assert_eq!(new, vec![item(0, fresh, MediaKind::Series)]);
    let (run, reconcile, _, _, relations, _) = write(run, vec![], 0);
    assert_eq!(reconcile, vec![fresh]);
    assert_eq!(relations[0][0].item_id, fresh);
    let (run, _) = run.step(Event::Written);
    assert_eq!(run.counts().1.get(MediaKind::Series), Some(1));
    let (run, _) = run.step(Event::Chunk(None));
    let (_, action) = run.step(Event::Members(vec![stored, fresh]));
    match action {
        Action::RemoveStale(batches) => assert_eq!(batches, vec![vec![stored]]),
        _ => panic!("the stored member is stale"),
    }
}

#[test]
fn import_never_pulls_more_than_max() {
    let (media_id, _) = catalog();
    let (run, action) = import_catalog_items(&media_id, 300);
    assert_eq!(is_pull(&action), Some(STREAM_CHUNK));
    let items: Vec<CatalogItem> =
        (0..250).map(|i| item(i, i as u128 + 1, MediaKind::Movie)).collect();
    let (run, new) = until_metadata(run, items, vec![], vec![None; 250]);
    assert_eq!(new.len(), 250);
    assert_eq!(run.progress(), (0, 300));
    let (run, _, _, _, relations, _) = write(run, vec![], 0);
    assert_eq!(relations.iter().map(|b| b.len()).collect::<Vec<_>>(), vec![RELATION_CHUNK, 50]);
    let (run, action) = run.step(Event::Written);
    assert_eq!(is_pull(&action), Some(50));
    assert_eq!(run.progress(), (250, 300));
    let items: Vec<CatalogItem> =
        (0..50).map(|i| item(i, i as u128 + 1000, MediaKind::Movie)).collect();
    let (run, _) = until_metadata(run, items, vec![], vec![None; 50]);
    let (run, _, _, _, relations, _) = write(run, vec![], 0);
    assert_eq!(relations[0][0].weight, 250);
    assert_eq!(relations[0][49].weight, 299);
    let (run, action) = run.step(Event::Written);
    assert!(matches!(action, Action::FetchMembers(_)));
    assert_eq!(run.counts().0.total(), 300);
}

#[test]
fn import_of_nothing_finishes_at_once() {
    let (media_id, _) = catalog();
    let (run, action) = import_catalog_items(&media_id, 0);
    assert!(matches!(action, Action::Finish));
    assert_eq!(run.progress(), (0, 1));
    let (run, action) = import_catalog_items(&media_id, 5);
    assert_eq!(is_pull(&action), Some(5));
    let (_, action) = run.step(Event::Chunk(Some(vec![])));
    assert!(matches!(action, Action::Finish));
}

#[test]
fn failed_lookup_fails_the_import() {
    let (media_id, _) = catalog();
    let (run, _) = import_catalog_items(&media_id, 5);
    let (run, action) = run.step(Event::Chunk(Some(vec![item(0, 7, MediaKind::Movie)])));
    match action {
        Action::LookupIds(ids) => assert_eq!(ids, vec![7]),
        _ => panic!("a lookup of ids was expected"),
    }
    let (_, action) = run.step(Event::LookupFailed);
    assert!(matches!(action, Action::Fail));
}

#[test]
fn failed_metadata_pass_skips_the_chunk() {
    let (media_id, _) = catalog();
    let (run, _) = import_catalog_items(&media_id, 5);
    let (run, _) = until_metadata(run, vec![item(0, 7, MediaKind::Movie)], vec![], vec![None]);
    let (run, action) = run.step(Event::Metadata { remap: None, tags: 0 });
    assert_eq!(is_pull(&action), Some(4));
    assert!(run.counts().0.is_empty());
    let (run, _) = until_metadata(run, vec![item(0, 8, MediaKind::Movie)], vec![], vec![None]);
    let (_, _, _, _, relations, _) = write(run, vec![], 0);
    assert_eq!(relations[0][0].weight, 1);
}

#[test]
fn only_top_level_kinds_are_taken() {
    let (media_id, _) = catalog();
    let (run, _) = import_catalog_items(&media_id, 10);
    let (run, new) = until_metadata(
        run,
        vec![
            item(0, 1, MediaKind::Episode),
            item(1, 2, MediaKind::Movie),
            item(2, 3, MediaKind::Season),
            item(3, 4, MediaKind::Track),
        ],
        vec![],
        vec![None, None],
    );
    assert_eq!(new, vec![item(1, 2, MediaKind::Movie), item(3, 4, MediaKind::Track)]);
    let (run, _) = run.step(Event::Metadata { remap: None, tags: 0 });
    let (_, action) = run.step(Event::Chunk(Some(vec![item(0, 9, MediaKind::Episode)])));
    match action {
        Action::FetchMetadata(new, _) => assert!(new.is_empty()),
        _ => panic!("a chunk without top-level items needs no lookup"),
    }
}

#[test]
fn channels_and_playlists_are_known_by_id_and_kind_only() {
    let (media_id, _) = catalog();
    let (run, _) = import_catalog_items(&media_id, 10);
    let items = vec![
        item(0, 1, MediaKind::TvChannel),
        item(1, 2, MediaKind::TvChannel),
        item(2, 3, MediaKind::Playlist),
        item(3, 4, MediaKind::Movie),
    ];
    let (run, _) = run.step(Event::Chunk(Some(items)));
    let rows = vec![
        (1, MediaKind::TvChannel),
        (2, MediaKind::Movie),
        (3, MediaKind::Playlist),
    ];
    let (run, action) = run.step(Event::Rows(rows));
    match action {
        Action::Match { wanted, .. } => assert_eq!(wanted, vec![false, false, false, true]),
        _ => panic!("a match by external ids was expected"),
    }
    let (run, action) = run.step(Event::Matched(vec![Some(9), Some(9), Some(9), None]));
    match action {
        Action::FetchMetadata(new, _) => assert_eq!(
            new,
            vec![item(1, 2, MediaKind::TvChannel), item(3, 4, MediaKind::Movie)],
        ),
        _ => panic!("a metadata pass was expected"),
    }
    let (_, reconcile, channels, playlists, relations, _) = write(run, vec![], 0);
    assert!(reconcile.is_empty());
    assert_eq!(channels, vec![item(0, 1, MediaKind::TvChannel)]);
    assert_eq!(playlists, vec![item(2, 3, MediaKind::Playlist)]);
    assert_eq!(
        relations[0].iter().map(|r| (r.item_id, r.weight)).collect::<Vec<_>>(),
        vec![(1, 0), (2, 1), (3, 2), (4, 3)],
    );
}

#[test]
fn replaced_ids_reach_memberships_tags_and_the_stale_diff() {
    let (media_id, collection) = catalog();
    let (run, _) = import_catalog_items(&media_id, 10);
    let (run, _) = until_metadata(
        run,
        vec![item(0, 1, MediaKind::Series), item(1, 2, MediaKind::Movie)],
        vec![],
        vec![None, None],
    );
    let (run, reconcile, _, _, relations, tags) = write(run, vec![(1, 100)], 2);
    assert_eq!(reconcile, vec![100]);
    assert_eq!(relations[0][0].item_id, 100);
    assert_eq!(relations[0][0].relation_id, relation_id(collection, 100));
    assert_eq!(relations[0][1].item_id, 2);
    assert_eq!(
        tags,
        vec![vec![
            TagRow { media_id: 100, tag: 0 },
            TagRow { media_id: 100, tag: 1 },
            TagRow { media_id: 2, tag: 0 },
            TagRow { media_id: 2, tag: 1 },
        ]],
    );
    let (run, _) = run.step(Event::Written);
    let (run, _) = run.step(Event::Chunk(None));
    let (run, action) = run.step(Event::Members(vec![1, 2, 100, 3]));
    match action {
        Action::RemoveStale(batches) => assert_eq!(batches, vec![vec![1, 3]]),
        _ => panic!("stale members were expected"),
    }
    let (_, action) = run.step(Event::Written);
    assert!(matches!(action, Action::Finish));
}

#[test]
fn catalogs_without_a_collection_write_no_rows() {
    for media_id in ["legacy", "addon:no-uuid:top", "addon:top"] {
        let (run, _) = import_catalog_items(media_id, 10);
        let (run, _) =
            until_metadata(run, vec![item(0, 1, MediaKind::Movie)], vec![], vec![None]);
        let (run, _, _, _, relations, tags) = write(run, vec![], 3);
        assert!(relations.is_empty());
        assert!(tags.is_empty());
        let (run, _) = run.step(Event::Written);
        let (run, action) = run.step(Event::Chunk(None));
        assert!(matches!(action, Action::Finish));
        assert_eq!(run.counts().0.get(MediaKind::Movie), Some(1));
    }
}

#[test]
fn statements_stay_within_bound_values() {
    assert!(RELATION_CHUNK * 4 <= 999);
    assert!(TAG_CHUNK * 2 <= 999);
    assert!(STALE_CHUNK + 1 <= 999);
    let (media_id, _) = catalog();
    let (run, _) = import_catalog_items(&media_id, 10);
    let (run, _) = until_metadata(run, vec![item(0, 1, MediaKind::Movie)], vec![], vec![None]);
    let (run, _, _, _, _, tags) = write(run, vec![], 900);
    assert_eq!(tags.iter().map(|b| b.len()).collect::<Vec<_>>(), vec![400, 400, 100]);
    let (run, _) = run.step(Event::Written);
    let (run, _) = run.step(Event::Chunk(None));
    let (_, action) = run.step(Event::Members((10..2010).collect()));
    match action {
        Action::RemoveStale(batches) => {
            assert_eq!(batches.iter().map(|b| b.len()).collect::<Vec<_>>(), vec![900, 900, 200]);
        }
        _ => panic!("stale members were expected"),
    }
}

#[test]
fn playlist_relations_are_cut_to_max() {
    let (media_id, _) = catalog();
    let (run, _) = import_catalog_items(&media_id, 3);
    let with = |id: u128, kind: MediaKind, relations: usize| CatalogItem {
        handle: id as usize,
        id,
        kind,
        relations,
    };
    let (run, new) = until_metadata(
        run,
        vec![
            with(1, MediaKind::Playlist, 9),
            with(2, MediaKind::Album, 9),
            with(3, MediaKind::Playlist, 5),
        ],
        vec![(3, MediaKind::Playlist)],
        vec![None, None, None],
    );
    assert_eq!(new, vec![with(1, MediaKind::Playlist, 3), with(2, MediaKind::Album, 9)]);
    let (_, _, _, playlists, _, _) = write(run, vec![], 0);
    assert_eq!(playlists, vec![with(3, MediaKind::Playlist, 3)]);
}

#[test]
fn tags_go_to_the_members_of_the_chunk() {
    let (media_id, _) = catalog();
    let (run, _) = import_catalog_items(&media_id, 10);
    let (run, _) = until_metadata(
        run,
        vec![
            item(0, 1, MediaKind::Movie),
            item(1, 2, MediaKind::Movie),
            item(2, 3, MediaKind::Movie),
        ],
        vec![(2, MediaKind::Movie)],
        vec![None, None, Some(30)],
    );
    let (_, _, _, _, relations, tags) = write(run, vec![(1, 100)], 1);
    let members: Vec<u128> = relations.concat().iter().map(|r| r.item_id).collect();
    assert_eq!(members, vec![100, 2, 30]);
    let tagged: Vec<u128> = tags.concat().iter().map(|t| t.media_id).collect();
    assert_eq!(tagged, vec![100, 2, 30]);
}

#[test]
fn runs_count_what_they_take() {
    let (media_id, _) = catalog();
    let (run, _) = import_catalog_items(&media_id, 5);
    let (run, _) = until_metadata(
        run,
        vec![
            item(0, 1, MediaKind::Movie),
            item(1, 2, MediaKind::Episode),
            item(2, 3, MediaKind::Series),
        ],
        vec![],
        vec![Some(9), None],
    );
    let (run, _, _, _, _, _) = write(run, vec![], 0);
    let (run, action) = run.step(Event::Written);
    assert_eq!(is_pull(&action), Some(2));
    let (run, _) = until_metadata(
        run,
        vec![item(0, 4, MediaKind::Movie), item(1, 5, MediaKind::Movie)],
        vec![(5, MediaKind::Movie)],
        vec![None, None],
    );
    let (run, _, _, _, _, _) = write(run, vec![], 0);
    let (run, action) = run.step(Event::Written);
    assert!(matches!(action, Action::FetchMembers(_)));
    let (counts, new_counts) = run.counts();
    assert_eq!(counts.get(MediaKind::Movie), Some(3));
    assert_eq!(counts.get(MediaKind::Series), Some(1));
    assert_eq!(counts.get(MediaKind::Episode), None);
    assert_eq!(new_counts.get(MediaKind::Movie), Some(1));
    assert_eq!(new_counts.get(MediaKind::Series), Some(1));
}

#[test]
fn runs_count_the_first_items_of_the_stream() {
    let (media_id, _) = catalog();
    let max = 4;
    let stream: Vec<CatalogItem> = [
        MediaKind::Movie,
        MediaKind::Episode,
        MediaKind::Series,
        MediaKind::Movie,
        MediaKind::Movie,
        MediaKind::Series,
    ]
    .iter()
    .enumerate()
    .map(|(i, kind)| item(i, i as u128 + 1, *kind))
    .collect();
    let (mut run, mut action) = import_catalog_items(&media_id, max);
    let mut at = 0;
    loop {
        let event = match action {
            Action::Pull(n) => {
                let chunk: Vec<CatalogItem> = stream[at..].iter().copied().take(n).collect();
                at += chunk.len();
                Event::Chunk(if chunk.is_empty() { None } else { Some(chunk) })
            }
            Action::LookupIds(_) => Event::Rows(vec![]),
            Action::Match { items, .. } => Event::Matched(vec![None; items.len()]),
            Action::FetchMetadata(..) => Event::Metadata { remap: Some(vec![]), tags: 0 },
            Action::Write { .. } | Action::RemoveStale(_) => Event::Written,
            Action::FetchMembers(_) => Event::Members(vec![]),
            Action::Finish => break,
            Action::Fail => panic!("nothing failed"),
        };
        (run, action) = run.step(event);
    }
    assert_eq!(at, max);
    let (counts, _) = run.counts();
    assert_eq!(counts.get(MediaKind::Movie), Some(2));
    assert_eq!(counts.get(MediaKind::Series), Some(1));
    assert_eq!(counts.get(MediaKind::Episode), None);
}

#[test]
fn members_left_are_the_seen_ones() {
    let (media_id, _) = catalog();
    // 2 is stored; 3 is replaced by 30; no row is stored for 4; 8 and 9 are members already.
    let media: HashSet<u128> = [1, 2, 30, 8, 9].into_iter().collect();
    let mut members: HashSet<u128> = [8, 9].into_iter().collect();
    let mut chunks = vec![
        vec![item(0, 3, MediaKind::Movie), item(1, 4, MediaKind::Movie)],
        vec![
            item(0, 1, MediaKind::Movie),
            item(1, 2, MediaKind::Series),
            item(2, 8, MediaKind::Movie),
        ],
    ];
    let (mut run, mut action) = import_catalog_items(&media_id, 10);
    loop {
        let event = match action {
            Action::Pull(_) => Event::Chunk(chunks.pop()),
            Action::LookupIds(ids) => Event::Rows(
                ids.iter()
                    .filter(|id| **id == 2 || **id == 8)
                    .map(|id| (*id, MediaKind::Movie))
                    .collect(),
            ),
            Action::Match { items, .. } => Event::Matched(vec![None; items.len()]),
            Action::FetchMetadata(new, _) => Event::Metadata {
                remap: Some(new.iter().filter(|i| i.id == 3).map(|i| (i.id, 30)).collect()),
                tags: 0,
            },
            Action::Write { relations, .. } => {
                let ids = relations.concat();
                members.extend(ids.iter().map(|r| r.item_id).filter(|id| media.contains(id)));
                Event::Written
            }
            Action::FetchMembers(_) => Event::Members(members.iter().copied().collect()),
            Action::RemoveStale(batches) => {
                for id in batches.concat() {
                    members.remove(&id);
                }
                Event::Written
            }
            Action::Finish => break,
            Action::Fail => panic!("nothing failed"),
        };
        (run, action) = run.step(event);
    }
    assert_eq!(run.counts().0.get(MediaKind::Movie), Some(4));
    assert_eq!(members, [1, 2, 8, 30].into_iter().collect());
}

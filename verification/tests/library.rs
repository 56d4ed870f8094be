use remux_library::collection_images::{
    invalidate_collection_images, CollectionRow, ImagesStage, PageRequest,
};
use remux_library::library_plan::{
    global_max, library_kinds, AddonCatalogs, CatalogInfo, PlannedImport, ResourceType,
};
use remux_library::media::MediaKind;
use remux_library::metadata::{MetaPass, PassDepth};
use remux_library::refresh_all_meta::{
    refreshed_kinds, MetaAction, MetaEventOf, RefreshAllMetaTask,
};
use remux_library::refresh_library::{
    ImportOutcome, LibraryAction, LibraryEventOf, LibraryRun, RefreshLibraryTask,
};
use remux_library::task::TaskCategory;
use std::collections::HashSet;

fn catalog(collection_id: u128, enabled: bool, max_items: Option<u32>) -> CatalogInfo {
    CatalogInfo { collection_id, enabled, max_items }
}

fn addons() -> Vec<AddonCatalogs> {
    vec![
        AddonCatalogs {
            resources: vec![ResourceType::Meta, ResourceType::Catalog],
            catalogs: vec![
                catalog(1, true, None),
                catalog(2, false, Some(9)),
                catalog(3, true, Some(5)),
            ],
        },
        AddonCatalogs {
            resources: vec![ResourceType::Stream],
            catalogs: vec![catalog(4, true, None)],
        },
        AddonCatalogs { resources: vec![ResourceType::Catalog], catalogs: vec![catalog(5, true, None)] },
    ]
}

fn listed(catalog_max_items: Option<u32>, addons: Vec<AddonCatalogs>) -> (LibraryRun, LibraryAction) {
    let (run, action) = RefreshLibraryTask.run(catalog_max_items);
    assert_eq!(action, LibraryAction::RefreshIndexes);
    let (run, action) = run.step(LibraryEventOf::IndexesRefreshed);
    assert_eq!(action, LibraryAction::ListCatalogs);
    run.step(LibraryEventOf::Catalogs(addons))
}

#[test]
fn library_task_is_described() {
    let task = RefreshLibraryTask;
    assert_eq!(task.key(), "RefreshLibrary");
    assert_eq!(task.name(), "Refresh Library");
    assert_eq!(
        task.description(),
        "Imports catalogs, scans addon sources, and updates the media library index.",
    );
    assert_eq!(task.short_description(), "Syncs all addon catalogs into your library");
    assert_eq!(task.category(), TaskCategory::Library);
}

#[test]
fn library_kinds_leave_channels_out() {
    assert_eq!(
        library_kinds(),
        vec![
            MediaKind::Movie,
            MediaKind::Series,
            MediaKind::Artist,
            MediaKind::Album,
            MediaKind::Track,
            MediaKind::Playlist,
        ],
    );
    assert!(!library_kinds().contains(&MediaKind::TvChannel));
}

#[test]
fn catalogs_default_to_250_items() {
    assert_eq!(global_max(None), 250);
    assert_eq!(global_max(Some(7)), 7);
    assert_eq!(global_max(Some(0)), 0);
}

#[test]
fn enabled_catalogs_are_imported_in_order() {
    let (run, action) = listed(Some(40), addons());
    assert_eq!(
        action,
        LibraryAction::Import(PlannedImport {
            addon: 0,
            catalog: 0,
            collection_id: 1,
            max: 40,
            done: 0,
            of: 2,
        }),
    );
    assert_eq!(run.total_work(), 3);
    let (run, action) = run.step(LibraryEventOf::Imported(ImportOutcome::Imported));
    assert_eq!(
        action,
        LibraryAction::Import(PlannedImport {
            addon: 0,
            catalog: 2,
            collection_id: 3,
            max: 5,
            done: 1,
            of: 2,
        }),
    );
    let (run, action) = run.step(LibraryEventOf::Imported(ImportOutcome::NoSource));
    assert_eq!(
        action,
        LibraryAction::Import(PlannedImport {
            addon: 2,
            catalog: 0,
            collection_id: 5,
            max: 40,
            done: 0,
            of: 1,
        }),
    );
    let (run, action) = run.step(LibraryEventOf::Imported(ImportOutcome::NotOpened));
    assert_eq!(action, LibraryAction::PruneOrphans);
    assert_eq!(run.valid_collections(), HashSet::from([1, 3, 5]));
    assert_eq!(run.domain_collections(), HashSet::from([1, 2, 3, 4, 5]));
    let (_, action) = run.step(LibraryEventOf::Pruned);
    assert_eq!(action, LibraryAction::RemoveStale);
}

#[test]
fn refresh_without_addons_goes_on_to_metadata() {
    let (run, action) = listed(None, vec![]);
    assert_eq!(action, LibraryAction::PruneOrphans);
    assert_eq!(run.total_work(), 1);
    let (run, _) = run.step(LibraryEventOf::Pruned);
    let (run, action) = run.step(LibraryEventOf::Unlinked);
    assert_eq!(action, LibraryAction::FetchRefreshable { limit: 100, after: None, count: true });
    let (run, action) = run.step(LibraryEventOf::Page { ids: vec![], count: Some(0) });
    assert_eq!(action, LibraryAction::InvalidateImages);
    assert_eq!(run.metadata_progress(), Some((0, 1)));
    let (_, action) = run.step(LibraryEventOf::Invalidated);
    assert_eq!(action, LibraryAction::Finish);
}

#[test]
fn metadata_is_refreshed_page_by_page() {
    let (run, _) = listed(None, vec![]);
    let (run, _) = run.step(LibraryEventOf::Pruned);
    let (run, _) = run.step(LibraryEventOf::Unlinked);
    let (run, action) = run.step(LibraryEventOf::Page { ids: (1..=100).collect(), count: Some(130) });
    assert_eq!(
        action,
        LibraryAction::ProcessBatch(MetaPass { depth: PassDepth::Root, force: false }),
    );
    let (run, action) = run.step(LibraryEventOf::Processed);
    assert_eq!(
        action,
        LibraryAction::FetchRefreshable { limit: 100, after: Some(100), count: false },
    );
    assert_eq!(run.metadata_progress(), Some((100, 130)));
    let (run, _) = run.step(LibraryEventOf::Page { ids: (101..=130).collect(), count: None });
    let (run, action) = run.step(LibraryEventOf::Processed);
    assert_eq!(action, LibraryAction::InvalidateImages);
    assert_eq!(run.metadata_progress(), Some((130, 130)));
}

#[test]
fn items_are_counted_again_only_while_no_count_is_known() {
    let (run, _) = listed(None, vec![]);
    let (run, _) = run.step(LibraryEventOf::Pruned);
    let (run, _) = run.step(LibraryEventOf::Unlinked);
    let (run, _) = run.step(LibraryEventOf::Page { ids: (1..=100).collect(), count: None });
    assert_eq!(run.metadata_progress(), None);
    let (_, action) = run.step(LibraryEventOf::Processed);
    assert_eq!(
        action,
        LibraryAction::FetchRefreshable { limit: 100, after: Some(100), count: true },
    );
}

#[test]
fn failures_end_a_refresh_at_once() {
    let (run, _) = RefreshLibraryTask.run(None);
    assert_eq!(run.step(LibraryEventOf::Failed).1, LibraryAction::Fail);
    let (run, _) = listed(None, addons());
    assert_eq!(run.step(LibraryEventOf::Failed).1, LibraryAction::Fail);
    let (run, _) = listed(None, vec![]);
    let (run, _) = run.step(LibraryEventOf::Pruned);
    let (run, _) = run.step(LibraryEventOf::Unlinked);
    let (run, _) = run.step(LibraryEventOf::Page { ids: vec![1], count: Some(1) });
    assert_eq!(run.step(LibraryEventOf::Failed).1, LibraryAction::Fail);
    let (run, _) = listed(None, vec![]);
    let (run, _) = run.step(LibraryEventOf::Pruned);
    let (run, _) = run.step(LibraryEventOf::Unlinked);
    assert_eq!(run.step(LibraryEventOf::Failed).1, LibraryAction::Fail);
}

#[test]
fn metadata_task_is_described() {
    let task = RefreshAllMetaTask;
    assert_eq!(task.key(), "RefreshAllMeta");
    assert_eq!(task.name(), "Refresh All Metadata");
    assert_eq!(
        task.description(),
        "Fetches metadata (artwork, ratings, etc.) for all library items.",
    );
    assert_eq!(task.short_description(), "Re-fetches artwork and info for all items");
    assert_eq!(task.category(), TaskCategory::Library);
    assert_eq!(
        refreshed_kinds(),
        vec![MediaKind::Movie, MediaKind::Series, MediaKind::Artist, MediaKind::Album],
    );
}

#[test]
fn all_metadata_is_visited_once() {
    let ids: Vec<u128> = (1..=250).map(|i| i * 3).collect();
    let (run, action) = RefreshAllMetaTask.run();
    assert_eq!(action, MetaAction::Count);
    let (mut run, mut action) = run.step(MetaEventOf::Counted(ids.len()));
    assert_eq!(run.report(0), (1, 250));
    let mut visited: Vec<u128> = Vec::new();
    let mut rounds = 0;
    while let MetaAction::Fetch { limit, after } = action {
        assert_eq!(limit, 100);
        let batch: Vec<u128> = ids
            .iter()
            .copied()
            .filter(|id| after.map_or(true, |a| *id > a))
            .take(limit as usize)
            .collect();
        visited.extend(&batch);
        let (next, todo) = run.step(MetaEventOf::Batch(batch));
        run = next;
        action = todo;
        if let MetaAction::Process(pass) = action {
            assert_eq!(pass, MetaPass { depth: PassDepth::Root, force: true });
            let (next, todo) = run.step(MetaEventOf::Processed);
            run = next;
            action = todo;
        }
        rounds += 1;
    }
    assert_eq!(action, MetaAction::Finish);
    assert_eq!(visited, ids);
    assert_eq!(rounds, 4);
}

#[test]
fn failed_metadata_refresh_fails() {
    let (run, _) = RefreshAllMetaTask.run();
    assert_eq!(run.step(MetaEventOf::Failed).1, MetaAction::Fail);
    let (run, _) = run.step(MetaEventOf::Counted(0));
    assert_eq!(run.report(4), (5, 1));
    assert_eq!(run.step(MetaEventOf::Failed).1, MetaAction::Fail);
    let (run, _) = run.step(MetaEventOf::Batch(vec![1]));
    assert_eq!(run.step(MetaEventOf::Failed).1, MetaAction::Fail);
}

#[test]
fn collection_images_are_swept_in_pages() {
    let table: Vec<CollectionRow> = (0..1100)
        .map(|i| CollectionRow { id: i, has_image_config: i % 2 == 0 })
        .collect();
    let (stage, request) = invalidate_collection_images();
    assert_eq!(request, PageRequest { limit: 500, offset: None, count: true });
    let mut stage = stage;
    let mut request = Some(request);
    let mut dropped: Vec<u128> = Vec::new();
    let mut offsets: Vec<u32> = Vec::new();
    while let Some(r) = request {
        let offset = r.offset.unwrap_or(0);
        offsets.push(offset);
        let rows: Vec<CollectionRow> =
            table.iter().copied().skip(offset as usize).take(r.limit as usize).collect();
        let (next, ids, more) = stage.step(Some((rows, table.len())));
        dropped.extend(ids);
        stage = next;
        request = more;
    }
    assert_eq!(stage, ImagesStage::Finished);
    assert_eq!(offsets, vec![0, 500, 1000]);
    assert_eq!(dropped, (0..1100).filter(|i| i % 2 == 0).collect::<Vec<u128>>());
}

#[test]
fn uploaded_images_stay() {
    let (stage, _) = invalidate_collection_images();
    let rows = vec![
        CollectionRow { id: 1, has_image_config: false },
        CollectionRow { id: 2, has_image_config: true },
    ];
    let (stage, ids, more) = stage.step(Some((rows, 2)));
    assert_eq!(ids, vec![2]);
    assert_eq!(more, None);
    assert_eq!(stage, ImagesStage::Finished);
}

#[test]
fn sweep_ends_with_a_failed_or_an_empty_page() {
    let (first, _) = invalidate_collection_images();
    let (stage, ids, more) = first.step(None);
    assert_eq!(stage, ImagesStage::Finished);
    assert!(ids.is_empty());
    assert_eq!(more, None);
    let (stage, _, more) = first.step(Some((vec![], 3)));
    assert_eq!(more, Some(PageRequest { limit: 500, offset: Some(0), count: false }));
    let (stage, _, more) = stage.step(Some((vec![], 0)));
    assert_eq!(stage, ImagesStage::Finished);
    assert_eq!(more, None);
}

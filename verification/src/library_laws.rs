//! What holds of every library refresh: which catalogs it imports, and in which order it works.

use vstd::prelude::*;

use crate::library_plan::{
    addon_plan, domain_of, enabled_at, import_plan, imported_at, law_planned_catalogs_are_enabled,
    library_kind_list, planned_collections, positions, AddonModel, CatalogInfo, PlannedImport,
    ResourceType,
};
use crate::media::MediaKind;
use crate::refresh_library::{
    ImportOutcome, LibraryAction, LibraryEventModel, LibraryEventOf, LibraryModel, LibraryStage,
};
use crate::sequences::{lemma_flatten_in_order, lemma_from_flatten};

verus! {

// ---------------------------------------------------------------------------------------------
// The plan

/// A library refresh is about movies, series, artists, albums, tracks and playlists.
pub proof fn law_kinds_of_a_library_refresh(kind: MediaKind)
    ensures
        library_kind_list().contains(kind) <==> kind is Movie || kind is Series || kind is Artist
            || kind is Album || kind is Track || kind is Playlist,
{
    crate::library_plan::law_library_kinds_are_top_level_but_channels(kind);
}

/// A catalog that sets a maximum is imported up to that, however large or small it is; one that
/// sets none is imported up to the common maximum.
pub proof fn law_own_maximum_counts(addons: Seq<AddonModel>, global: usize, i: int)
    requires
        addons.len() <= usize::MAX,
        forall|a: int|
            0 <= a < addons.len() ==> (#[trigger] addons[a]).catalogs.len() <= usize::MAX,
        0 <= i < import_plan(addons, global).len(),
    ensures
        ({
            let p = import_plan(addons, global)[i];
            let catalog = addons[p.addon as int].catalogs[p.catalog as int];
            &&& catalog.max_items matches Some(n) ==> p.max == n
            &&& catalog.max_items is None ==> p.max == global
            &&& p.collection_id == catalog.collection_id
        }),
{
    law_planned_catalogs_are_enabled(addons, global, i);
}

/// Without a maximum set for the server, the common maximum is 250; else it is that of the server.
pub proof fn law_common_maximum(catalog_max_items: Option<u32>)
    ensures
        LibraryModel::start(catalog_max_items).global == match catalog_max_items {
            Some(n) => n as int,
            None => 250,
        },
{
}

proof fn lemma_filter_agrees(s: Seq<usize>, p: spec_fn(usize) -> bool, q: spec_fn(usize) -> bool)
    requires
        forall|i: int| 0 <= i < s.len() ==> p(#[trigger] s[i]) == q(s[i]),
    ensures
        s.filter(p) == s.filter(q),
    decreases s.len(),
{
    reveal(Seq::filter);
    if s.len() > 0 {
        let front = s.drop_last();
        assert forall|i: int| 0 <= i < front.len() implies p(#[trigger] front[i]) == q(front[i]) by {
            assert(front[i] == s[i]);
        }
        lemma_filter_agrees(front, p, q);
        assert(p(s[s.len() - 1]) == q(s[s.len() - 1]));
    }
}

proof fn lemma_enabled_positions(catalogs: Seq<CatalogInfo>)
    requires
        catalogs.len() <= usize::MAX,
    ensures
        ({
            let at = positions(catalogs.len()).filter(enabled_at(catalogs));
            let on = |c: CatalogInfo| c.enabled;
            &&& at.len() == catalogs.filter(on).len()
            &&& forall|j: int| 0 <= j < at.len() ==> (#[trigger] at[j]) < catalogs.len()
            &&& forall|j: int|
                0 <= j < at.len() ==> catalogs.take((#[trigger] at[j]) as int).filter(on).len() == j
            &&& forall|i: int, j: int|
                0 <= i < j < at.len() ==> (#[trigger] at[i]) < (#[trigger] at[j])
        }),
    decreases catalogs.len(),
{
    reveal(Seq::filter);
    let on = |c: CatalogInfo| c.enabled;
    let n = catalogs.len();
    let all = positions(n);
    let at = all.filter(enabled_at(catalogs));
    if n == 0 {
        assert(at =~= Seq::<usize>::empty());
    } else {
        let front = catalogs.drop_last();
        lemma_enabled_positions(front);
        let early = positions(front.len());
        assert(all =~= early.push((n - 1) as usize));
        early.lemma_filter_push((n - 1) as usize, enabled_at(catalogs));
        assert forall|i: int| 0 <= i < early.len() implies enabled_at(catalogs)(#[trigger] early[i])
            == enabled_at(front)(early[i]) by {}
        lemma_filter_agrees(early, enabled_at(catalogs), enabled_at(front));
        let before = early.filter(enabled_at(front));
        assert(front.push(catalogs.last()) =~= catalogs);
        front.lemma_filter_push(catalogs.last(), on);
        assert forall|j: int| 0 <= j < at.len() implies catalogs.take(
            (#[trigger] at[j]) as int,
        ).filter(on).len() == j && at[j] < catalogs.len() by {
            if j < before.len() {
                assert(at[j] == before[j]);
                assert(catalogs.take(at[j] as int) =~= front.take(at[j] as int));
            } else {
                assert(catalogs.take(at[j] as int) =~= front);
            }
        }
        assert forall|i: int, j: int| 0 <= i < j < at.len() implies (#[trigger] at[i]) < (
        #[trigger] at[j]) by {
            assert(at[i] == before[i]);
            if j < before.len() {
                assert(at[j] == before[j]);
            }
        }
    }
}

/// Imports follow the list of addons, and the list of catalogs within an addon.
pub proof fn law_plan_follows_the_listing(addons: Seq<AddonModel>, global: usize, i: int, j: int)
    requires
        addons.len() <= usize::MAX,
        forall|a: int|
            0 <= a < addons.len() ==> (#[trigger] addons[a]).catalogs.len() <= usize::MAX,
        0 <= i < j < import_plan(addons, global).len(),
    ensures
        ({
            let p = import_plan(addons, global)[i];
            let q = import_plan(addons, global)[j];
            p.addon < q.addon || p.addon == q.addon && p.catalog < q.catalog
        }),
{
    let parts = Seq::new(addons.len(), |a: int| addon_plan(addons[a], global, a));
    let ((a, x), (b, y)) = lemma_flatten_in_order(parts, i, j);
    let at = imported_at(addons[a]);
    lemma_enabled_positions(addons[a].catalogs);
    if a == b {
        assert(at[x] < at[y]);
    }
}

/// An import knows how many enabled catalogs of its addon come before its own, and how many there
/// are.
pub proof fn law_imports_are_counted_by_addon(addons: Seq<AddonModel>, global: usize, i: int)
    requires
        addons.len() <= usize::MAX,
        forall|a: int|
            0 <= a < addons.len() ==> (#[trigger] addons[a]).catalogs.len() <= usize::MAX,
        0 <= i < import_plan(addons, global).len(),
    ensures
        ({
            let p = import_plan(addons, global)[i];
            let catalogs = addons[p.addon as int].catalogs;
            let on = |c: CatalogInfo| c.enabled;
            &&& p.done == catalogs.take(p.catalog as int).filter(on).len()
            &&& p.of == catalogs.filter(on).len()
        }),
{
    let parts = Seq::new(addons.len(), |a: int| addon_plan(addons[a], global, a));
    let (a, x) = lemma_from_flatten(parts, i);
    let catalogs = addons[a].catalogs;
    lemma_enabled_positions(catalogs);
    let at = imported_at(addons[a]);
    positions(catalogs.len()).lemma_filter_len(enabled_at(catalogs));
    assert(catalogs.take(at[x] as int).filter(|c: CatalogInfo| c.enabled).len() == x);
}

/// Nothing is imported from an addon that does not offer catalogs, and no disabled catalog is.
pub proof fn law_only_offered_and_enabled_catalogs_are_planned(
    addons: Seq<AddonModel>,
    global: usize,
    i: int,
)
    requires
        addons.len() <= usize::MAX,
        forall|a: int|
            0 <= a < addons.len() ==> (#[trigger] addons[a]).catalogs.len() <= usize::MAX,
        0 <= i < import_plan(addons, global).len(),
    ensures
        ({
            let p = import_plan(addons, global)[i];
            &&& p.addon < addons.len()
            &&& p.catalog < addons[p.addon as int].catalogs.len()
            &&& addons[p.addon as int].catalogs[p.catalog as int].enabled
            &&& addons[p.addon as int].resources.contains(ResourceType::Catalog)
        }),
{
    law_planned_catalogs_are_enabled(addons, global, i);
}

/// The domain of a refresh holds the collection of every listed catalog, enabled or not, whatever
/// its addon offers, and no other.
pub proof fn law_domain_is_every_listed_catalog(addons: Seq<AddonModel>, a: int, k: int, id: u128)
    ensures
        0 <= a < addons.len() && 0 <= k < addons[a].catalogs.len() ==> domain_of(addons).contains(
            addons[a].catalogs[k].collection_id,
        ),
        domain_of(addons).contains(id) ==> exists|x: int, y: int|
            0 <= x < addons.len() && 0 <= y < addons[x].catalogs.len() && (
            #[trigger] addons[x].catalogs[y]).collection_id == id,
{
}

/// The valid collections are those of the planned imports, and no other.
pub proof fn law_valid_collections_are_the_planned_ones(
    plan: Seq<PlannedImport>,
    i: int,
    id: u128,
)
    ensures
        0 <= i < plan.len() ==> planned_collections(plan).contains(plan[i].collection_id),
        planned_collections(plan).contains(id) ==> exists|k: int|
            0 <= k < plan.len() && (#[trigger] plan[k]).collection_id == id,
{
}

// ---------------------------------------------------------------------------------------------
// The run

/// A refresh reads the catalogs once the indexes are refreshed, plans the imports of what it reads,
/// and starts with the first of them.
pub proof fn law_refresh_plans_what_it_lists(state: LibraryModel, addons: Seq<AddonModel>)
    ensures
        state.stage is Indexing ==> state.next(LibraryEventOf::IndexesRefreshed).1 is ListCatalogs
            && state.next(LibraryEventOf::IndexesRefreshed).0.stage is Listing,
        state.stage is Listing ==> ({
            let (next, action) = state.next(LibraryEventOf::Catalogs(addons));
            let plan = import_plan(addons, state.global);
            &&& next.addons == addons
            &&& next.plan == plan
            &&& next.global == state.global
            &&& plan.len() > 0 ==> next.stage == (LibraryStage::Importing { at: 0 }) && action
                == LibraryAction::Import(plan[0])
            &&& plan.len() == 0 ==> next.stage is Pruning && action is PruneOrphans
        }),
{
}

/// A refresh starts with the indexes: nothing is listed, planned, counted or processed yet.
pub proof fn law_refresh_starts_from_nothing(catalog_max_items: Option<u32>)
    ensures
        ({
            let state = LibraryModel::start(catalog_max_items);
            &&& state.stage is Indexing
            &&& state.addons.len() == 0
            &&& state.plan.len() == 0
            &&& state.total is None
            &&& state.processed == 0
            &&& state.cursor is None
        }),
{
}

/// What is counted and processed changes only with pages of items and when they are processed.
pub proof fn law_progress_moves_with_pages(state: LibraryModel, event: LibraryEventModel)
    requires
        !(event is Page),
    ensures
        state.next(event).0.total == state.total,
        state.next(event).0.cursor == state.cursor,
        !(event is Processed) ==> state.next(event).0.processed == state.processed,
{
}

/// Imports follow one another in the order of the plan, however each of them ended; orphaned
/// playlists are pruned behind the last.
pub proof fn law_imports_follow_one_another(state: LibraryModel, at: usize, outcome: ImportOutcome)
    requires
        state.valid(),
        state.stage == (LibraryStage::Importing { at }),
    ensures
        ({
            let (next, action) = state.next(LibraryEventOf::Imported(outcome));
            &&& next.plan == state.plan
            &&& next.addons == state.addons
            &&& at + 1 < state.plan.len() ==> next.stage == (LibraryStage::Importing {
                at: (at + 1) as usize,
            }) && action == LibraryAction::Import(state.plan[at + 1])
            &&& at + 1 == state.plan.len() ==> next.stage is Pruning && action is PruneOrphans
        }),
{
}

/// Stale memberships go after the orphaned playlists, and the first page of items to refresh is
/// fetched after that: up to 100 items behind the last one fetched, counted as long as no count is
/// known.
pub proof fn law_cleanup_comes_before_the_metadata(state: LibraryModel)
    ensures
        state.stage is Pruning ==> state.next(LibraryEventOf::Pruned).1 is RemoveStale && state.next(
            LibraryEventOf::Pruned,
        ).0.stage is Unlinking,
        state.stage is Unlinking ==> state.next(LibraryEventOf::Unlinked).0.stage is Fetching
            && state.next(LibraryEventOf::Unlinked).1 == (LibraryAction::FetchRefreshable {
            limit: 100,
            after: state.cursor,
            count: state.total is None,
        }),
{
}

/// A page with items is refreshed, without force and without what is below a series, and the next
/// page starts behind its last item; a page without items ends the metadata. The first count is
/// kept, and counts as one where it is zero.
pub proof fn law_pages_are_refreshed(state: LibraryModel, ids: Seq<u128>, count: Option<u32>)
    requires
        state.stage is Fetching,
        ids.len() <= u32::MAX,
    ensures
        ({
            let (next, action) = state.next(LibraryEventOf::Page { ids, count });
            &&& ids.len() > 0 ==> {
                &&& action matches LibraryAction::ProcessBatch(pass)
                &&& !pass.force && pass.depth is Root
                &&& next.stage == (LibraryStage::Processing { fetched: ids.len() as u32 })
                &&& next.cursor == Some(ids[ids.len() - 1])
            }
            &&& ids.len() == 0 ==> action is InvalidateImages && next.stage is Invalidating
                && next.cursor == state.cursor
            &&& count is None ==> next.total == state.total
            &&& count matches Some(n) ==> next.total == Some(
                if n == 0 {
                    1u32
                } else {
                    n
                },
            )
            &&& next.processed == state.processed
        }),
{
}

/// A full page of 100 items is followed by the next one, and a shorter page by the images.
pub proof fn law_short_page_is_the_last(state: LibraryModel, fetched: u32)
    requires
        state.stage == (LibraryStage::Processing { fetched }),
    ensures
        ({
            let (next, action) = state.next(LibraryEventOf::Processed);
            &&& next.processed == state.processed + fetched
            &&& next.cursor == state.cursor
            &&& next.total == state.total
            &&& fetched >= 100 ==> next.stage is Fetching && action == (
            LibraryAction::FetchRefreshable {
                limit: 100,
                after: state.cursor,
                count: state.total is None,
            })
            &&& fetched < 100 ==> next.stage is Invalidating && action is InvalidateImages
        }),
{
}

/// A refresh is complete once the images are dropped, and a failure ends it wherever it stands.
pub proof fn law_refresh_ends_with_the_images(state: LibraryModel)
    ensures
        state.stage is Invalidating ==> state.next(LibraryEventOf::Invalidated).1 is Finish
            && state.next(LibraryEventOf::Invalidated).0.stage is Finished,
        state.next(LibraryEventOf::Failed).1 is Fail,
        state.next(LibraryEventOf::Failed).0.stage is Failed,
{
}

/// The list of addons and the plan change only when the catalogs are listed.
pub proof fn law_plan_stays_once_it_is_made(state: LibraryModel, event: LibraryEventModel)
    requires
        !(event is Catalogs),
    ensures
        state.next(event).0.plan == state.plan,
        state.next(event).0.addons == state.addons,
        state.next(event).0.global == state.global,
{
}

} // verus!

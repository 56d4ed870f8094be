//! A library refresh, as a machine: each event that the outside reports is answered with the next
//! thing to do.

use std::collections::HashSet;

use vstd::prelude::*;

use crate::library_plan::{
    addon_models, domain_collections, domain_of, global_max, import_plan, plan_imports,
    planned_collections, valid_collections, AddonCatalogs, AddonModel, PlannedImport,
    DEFAULT_MAX_ITEMS,
};
use crate::metadata::{MetaPass, PassDepth};
use crate::task::TaskCategory;

verus! {

/// Items whose metadata is refreshed at a time.
pub const CHUNK_SIZE: u32 = 100;

/// The task that imports every enabled catalog and refreshes metadata.
#[derive(Clone, Copy, Debug)]
pub struct RefreshLibraryTask;

/// How one catalog's import ended.
#[derive(Clone, Copy, Debug, PartialEq, Eq, Structural)]
pub enum ImportOutcome {
    /// No addon serves the catalog: it is passed over.
    NoSource,
    /// The catalog could not be opened: it is passed over.
    NotOpened,
    Imported,
}

/// Where a refresh stands, and what it waits for.
#[derive(Clone, Copy, Debug, PartialEq, Eq, Structural)]
pub enum LibraryStage {
    /// For the addons' indexes.
    Indexing,
    /// For the list of catalogs.
    Listing,
    /// For the import at this position of the plan.
    Importing { at: usize },
    /// For the removal of orphaned playlists.
    Pruning,
    /// For the removal of stale memberships.
    Unlinking,
    /// For the next items to refresh.
    Fetching,
    /// For the refresh of this many items.
    Processing { fetched: u32 },
    /// For the images of collections.
    Invalidating,
    Finished,
    Failed,
}

/// What the outside reports.
pub enum LibraryEventOf<Addons, Ids> {
    IndexesRefreshed,
    Catalogs(Addons),
    Imported(ImportOutcome),
    Pruned,
    Unlinked,
    /// The items to refresh, and how many there are in all where that was asked for.
    Page { ids: Ids, count: Option<u32> },
    Processed,
    Invalidated,
    /// What was to be done failed.
    Failed,
}

pub type LibraryEvent = LibraryEventOf<Vec<AddonCatalogs>, Vec<u128>>;

pub type LibraryEventModel = LibraryEventOf<Seq<AddonModel>, Seq<u128>>;

/// The contents of an event.
pub open spec fn library_event_model(event: LibraryEvent) -> LibraryEventModel {
    match event {
        LibraryEventOf::IndexesRefreshed => LibraryEventOf::IndexesRefreshed,
        LibraryEventOf::Catalogs(addons) => LibraryEventOf::Catalogs(addon_models(addons@)),
        LibraryEventOf::Imported(outcome) => LibraryEventOf::Imported(outcome),
        LibraryEventOf::Pruned => LibraryEventOf::Pruned,
        LibraryEventOf::Unlinked => LibraryEventOf::Unlinked,
        LibraryEventOf::Page { ids, count } => LibraryEventOf::Page { ids: ids@, count },
        LibraryEventOf::Processed => LibraryEventOf::Processed,
        LibraryEventOf::Invalidated => LibraryEventOf::Invalidated,
        LibraryEventOf::Failed => LibraryEventOf::Failed,
    }
}

/// What to do next.
#[derive(Clone, Copy, Debug, PartialEq, Eq, Structural)]
pub enum LibraryAction {
    /// Refresh the addons' indexes.
    RefreshIndexes,
    /// List the catalogs of the kinds that a library refresh imports.
    ListCatalogs,
    /// Import this catalog.
    Import(PlannedImport),
    /// Remove playlists whose catalog was not imported.
    PruneOrphans,
    /// Remove memberships of catalogs that were not imported.
    RemoveStale,
    /// Fetch up to `limit` items to refresh behind `after`, and count them all where `count` says
    /// so.
    FetchRefreshable { limit: u32, after: Option<u128>, count: bool },
    /// Refresh the metadata of the items just fetched, in this way.
    ProcessBatch(MetaPass),
    /// Drop the generated images of collections.
    InvalidateImages,
    /// The refresh is complete.
    Finish,
    /// The refresh failed.
    Fail,
}

/// The state of a refresh.
pub struct LibraryModel {
    /// The most items to take from a catalog that sets no maximum.
    pub global: usize,
    pub addons: Seq<AddonModel>,
    pub plan: Seq<PlannedImport>,
    /// How many items are to be refreshed, once known.
    pub total: Option<u32>,
    /// How many were.
    pub processed: nat,
    /// The last item fetched.
    pub cursor: Option<u128>,
    pub stage: LibraryStage,
}

impl LibraryModel {
    /// The state at the start.
    pub open spec fn start(catalog_max_items: Option<u32>) -> LibraryModel {
        LibraryModel {
            global: match catalog_max_items {
                Some(n) => n as usize,
                None => DEFAULT_MAX_ITEMS as usize,
            },
            addons: Seq::empty(),
            plan: Seq::empty(),
            total: None,
            processed: 0,
            cursor: None,
            stage: LibraryStage::Indexing,
        }
    }

    /// What holds in every state.
    pub open spec fn valid(self) -> bool {
        &&& self.plan == import_plan(self.addons, self.global)
        &&& self.processed <= u32::MAX
        &&& match self.stage {
            LibraryStage::Importing { at } => at < self.plan.len(),
            LibraryStage::Processing { fetched } => self.processed + fetched <= u32::MAX,
            _ => true,
        }
    }

    /// Whether this state waits for `event`.
    pub open spec fn expects(self, event: LibraryEventModel) -> bool {
        match (self.stage, event) {
            (LibraryStage::Indexing, LibraryEventOf::IndexesRefreshed) => true,
            (LibraryStage::Indexing, LibraryEventOf::Failed) => true,
            (LibraryStage::Listing, LibraryEventOf::Catalogs(_)) => true,
            (LibraryStage::Importing { .. }, LibraryEventOf::Imported(_)) => true,
            (LibraryStage::Importing { .. }, LibraryEventOf::Failed) => true,
            (LibraryStage::Pruning, LibraryEventOf::Pruned) => true,
            (LibraryStage::Unlinking, LibraryEventOf::Unlinked) => true,
            (LibraryStage::Fetching, LibraryEventOf::Page { ids, .. }) => self.processed + ids.len()
                <= u32::MAX,
            (LibraryStage::Fetching, LibraryEventOf::Failed) => true,
            (LibraryStage::Processing { .. }, LibraryEventOf::Processed) => true,
            (LibraryStage::Processing { .. }, LibraryEventOf::Failed) => true,
            (LibraryStage::Invalidating, LibraryEventOf::Invalidated) => true,
            _ => false,
        }
    }

    /// Imports the catalog at this position of the plan; behind the last one, cleans up.
    pub open spec fn import_at(self, at: int) -> (LibraryModel, LibraryAction) {
        if at < self.plan.len() {
            (
                LibraryModel { stage: LibraryStage::Importing { at: at as usize }, ..self },
                LibraryAction::Import(self.plan[at]),
            )
        } else {
            (LibraryModel { stage: LibraryStage::Pruning, ..self }, LibraryAction::PruneOrphans)
        }
    }

    /// Fetches the next items to refresh; they are counted as long as no count is known.
    pub open spec fn fetch(self) -> (LibraryModel, LibraryAction) {
        (
            LibraryModel { stage: LibraryStage::Fetching, ..self },
            LibraryAction::FetchRefreshable {
                limit: CHUNK_SIZE,
                after: self.cursor,
                count: self.total is None,
            },
        )
    }

    /// The metadata is refreshed: the images come next.
    pub open spec fn finish_metadata(self) -> (LibraryModel, LibraryAction) {
        (
            LibraryModel { stage: LibraryStage::Invalidating, ..self },
            LibraryAction::InvalidateImages,
        )
    }

    /// The number of all items to refresh after a page that reports `count`, at least one.
    pub open spec fn total_after(self, count: Option<u32>) -> Option<u32> {
        match count {
            Some(c) => Some(
                if c == 0 {
                    1
                } else {
                    c
                },
            ),
            None => self.total,
        }
    }

    /// The next state and the next action.
    pub open spec fn next(self, event: LibraryEventModel) -> (LibraryModel, LibraryAction) {
        match (self.stage, event) {
            (LibraryStage::Indexing, LibraryEventOf::IndexesRefreshed) => (
                LibraryModel { stage: LibraryStage::Listing, ..self },
                LibraryAction::ListCatalogs,
            ),
            (LibraryStage::Listing, LibraryEventOf::Catalogs(addons)) => LibraryModel {
                addons,
                plan: import_plan(addons, self.global),
                ..self
            }.import_at(0),
            (
                LibraryStage::Importing { at },
                LibraryEventOf::Imported(_),
            ) => self.import_at(at + 1),
            (LibraryStage::Pruning, LibraryEventOf::Pruned) => (
                LibraryModel { stage: LibraryStage::Unlinking, ..self },
                LibraryAction::RemoveStale,
            ),
            (LibraryStage::Unlinking, LibraryEventOf::Unlinked) => self.fetch(),
            (LibraryStage::Fetching, LibraryEventOf::Page { ids, count }) => {
                let counted = LibraryModel { total: self.total_after(count), ..self };
                if ids.len() == 0 {
                    counted.finish_metadata()
                } else {
                    (
                        LibraryModel {
                            cursor: Some(ids.last()),
                            stage: LibraryStage::Processing { fetched: ids.len() as u32 },
                            ..counted
                        },
                        LibraryAction::ProcessBatch(
                            MetaPass { depth: PassDepth::Root, force: false },
                        ),
                    )
                }
            },
            (LibraryStage::Processing { fetched }, LibraryEventOf::Processed) => {
                let done = LibraryModel { processed: self.processed + fetched as nat, ..self };
                if fetched < CHUNK_SIZE {
                    done.finish_metadata()
                } else {
                    done.fetch()
                }
            },
            (LibraryStage::Invalidating, LibraryEventOf::Invalidated) => (
                LibraryModel { stage: LibraryStage::Finished, ..self },
                LibraryAction::Finish,
            ),
            _ => (LibraryModel { stage: LibraryStage::Failed, ..self }, LibraryAction::Fail),
        }
    }
}

/// A library refresh.
pub struct LibraryRun {
    global: usize,
    addons: Vec<AddonCatalogs>,
    plan: Vec<PlannedImport>,
    total: Option<u32>,
    processed: u32,
    cursor: Option<u128>,
    stage: LibraryStage,
}

impl View for LibraryRun {
    type V = LibraryModel;

    closed spec fn view(&self) -> LibraryModel {
        LibraryModel {
            global: self.global,
            addons: addon_models(self.addons@),
            plan: self.plan@,
            total: self.total,
            processed: self.processed as nat,
            cursor: self.cursor,
            stage: self.stage,
        }
    }
}

impl LibraryRun {
    /// The collections of the catalogs imported in this run.
    pub fn valid_collections(&self) -> (r: HashSet<u128>)
        ensures
            r@ == planned_collections(self@.plan),
    {
        valid_collections(&self.plan)
    }

    /// The collections of all catalogs that this run is responsible for.
    pub fn domain_collections(&self) -> (r: HashSet<u128>)
        ensures
            r@ == domain_of(self@.addons),
    {
        domain_collections(&self.addons)
    }

    /// The number of addons, which counts as one where there is none.
    pub fn total_work(&self) -> (r: usize)
        ensures
            r == if self@.addons.len() == 0 {
                1
            } else {
                self@.addons.len()
            },
    {
        if self.addons.len() == 0 {
            1
        } else {
            self.addons.len()
        }
    }

    /// How many items were refreshed, and of how many, once that is known.
    pub fn metadata_progress(&self) -> (r: Option<(u32, u32)>)
        ensures
            r is Some <==> self@.total is Some,
            r is Some ==> (r->0).0 == self@.processed && (r->0).1 == self@.total->0,
    {
        match self.total {
            Some(total) => Some((self.processed, total)),
            None => None,
        }
    }

    fn import_at(self, at: usize) -> (r: (LibraryRun, LibraryAction))
        ensures
            (r.0@, r.1) == self@.import_at(at as int),
    {
        if at < self.plan.len() {
            let next: PlannedImport = self.plan[at];
            (
                LibraryRun { stage: LibraryStage::Importing { at }, ..self },
                LibraryAction::Import(next),
            )
        } else {
            (LibraryRun { stage: LibraryStage::Pruning, ..self }, LibraryAction::PruneOrphans)
        }
    }

    fn fetch(self) -> (r: (LibraryRun, LibraryAction))
        ensures
            (r.0@, r.1) == self@.fetch(),
    {
        let action = LibraryAction::FetchRefreshable {
            limit: CHUNK_SIZE,
            after: self.cursor,
            count: self.total.is_none(),
        };
        (LibraryRun { stage: LibraryStage::Fetching, ..self }, action)
    }

    fn finish_metadata(self) -> (r: (LibraryRun, LibraryAction))
        ensures
            (r.0@, r.1) == self@.finish_metadata(),
    {
        (
            LibraryRun { stage: LibraryStage::Invalidating, ..self },
            LibraryAction::InvalidateImages,
        )
    }

    /// Takes an event and answers with the next thing to do.
    pub fn step(self, event: LibraryEvent) -> (r: (LibraryRun, LibraryAction))
        requires
            self@.valid(),
            self@.expects(library_event_model(event)),
        ensures
            (r.0@, r.1) == self@.next(library_event_model(event)),
            r.0@.valid(),
    {
        match (self.stage, event) {
            (LibraryStage::Indexing, LibraryEventOf::IndexesRefreshed) => (
                LibraryRun { stage: LibraryStage::Listing, ..self },
                LibraryAction::ListCatalogs,
            ),
            (LibraryStage::Listing, LibraryEventOf::Catalogs(addons)) => {
                let plan: Vec<PlannedImport> = plan_imports(&addons, self.global);
                LibraryRun { addons, plan, ..self }.import_at(0)
            },
            (LibraryStage::Importing { at }, LibraryEventOf::Imported(_)) => {
                assert(at < self.plan.len());
                self.import_at(at + 1)
            },
            (LibraryStage::Pruning, LibraryEventOf::Pruned) => (
                LibraryRun { stage: LibraryStage::Unlinking, ..self },
                LibraryAction::RemoveStale,
            ),
            (LibraryStage::Unlinking, LibraryEventOf::Unlinked) => self.fetch(),
            (LibraryStage::Fetching, LibraryEventOf::Page { ids, count }) => {
                let total: Option<u32> = match count {
                    Some(c) => Some(
                        if c == 0 {
                            1
                        } else {
                            c
                        },
                    ),
                    None => self.total,
                };
                let counted = LibraryRun { total, ..self };
                if ids.len() == 0 {
                    counted.finish_metadata()
                } else {
                    let fetched: u32 = ids.len() as u32;
                    (
                        LibraryRun {
                            cursor: Some(ids[ids.len() - 1]),
                            stage: LibraryStage::Processing { fetched },
                            ..counted
                        },
                        LibraryAction::ProcessBatch(
                            MetaPass { depth: PassDepth::Root, force: false },
                        ),
                    )
                }
            },
            (LibraryStage::Processing { fetched }, LibraryEventOf::Processed) => {
                let processed: u32 = self.processed + fetched;
                let done = LibraryRun { processed, ..self };
                if fetched < CHUNK_SIZE {
                    done.finish_metadata()
                } else {
                    done.fetch()
                }
            },
            (LibraryStage::Invalidating, LibraryEventOf::Invalidated) => (
                LibraryRun { stage: LibraryStage::Finished, ..self },
                LibraryAction::Finish,
            ),
            _ => (LibraryRun { stage: LibraryStage::Failed, ..self }, LibraryAction::Fail),
        }
    }
}

impl RefreshLibraryTask {
    pub fn key(&self) -> (r: &'static str)
        ensures
            r@ == "RefreshLibrary"@,
    {
        "RefreshLibrary"
    }

    pub fn name(&self) -> (r: &'static str)
        ensures
            r@ == "Refresh Library"@,
    {
        "Refresh Library"
    }

    pub fn description(&self) -> (r: &'static str)
        ensures
            r@ == "Imports catalogs, scans addon sources, and updates the media library index."@,
    {
        "Imports catalogs, scans addon sources, and updates the media library index."
    }

    pub fn short_description(&self) -> (r: &'static str)
        ensures
            r@ == "Syncs all addon catalogs into your library"@,
    {
        "Syncs all addon catalogs into your library"
    }

    pub fn category(&self) -> (r: TaskCategory)
        ensures
            r == TaskCategory::Library,
    {
        TaskCategory::Library
    }

    /// Starts a refresh, given the server's maximum for catalogs, and says what to do first.
    pub fn run(&self, catalog_max_items: Option<u32>) -> (r: (LibraryRun, LibraryAction))
        ensures
            r.0@ == LibraryModel::start(catalog_max_items),
            r.1 == LibraryAction::RefreshIndexes,
            r.0@.valid(),
    {
        let run = LibraryRun {
            global: global_max(catalog_max_items),
            addons: Vec::new(),
            plan: Vec::new(),
            total: None,
            processed: 0,
            cursor: None,
            stage: LibraryStage::Indexing,
        };
        assert(addon_models(run.addons@) =~= Seq::empty());
        assert(import_plan(Seq::empty(), run.global) =~= Seq::empty());
        (run, LibraryAction::RefreshIndexes)
    }
}

// ---------------------------------------------------------------------------------------------
// Laws

/// Every step leads from a valid state to a valid state, and a failure ends the refresh at once:
/// nothing is cleaned up after it.
pub proof fn law_refresh_step(state: LibraryModel, event: LibraryEventModel)
    requires
        state.valid(),
        state.expects(event),
    ensures
        state.next(event).0.valid(),
        event is Failed <==> state.next(event).1 is Fail,
        event is Failed ==> state.next(event).0.stage is Failed,
{
}

/// Orphaned playlists are pruned only once every planned import was tried, and before the
/// memberships by which they are found are removed.
pub proof fn law_playlists_are_pruned_before_memberships(
    state: LibraryModel,
    event: LibraryEventModel,
)
    requires
        state.valid(),
        state.expects(event),
    ensures
        state.next(event).1 is PruneOrphans <==> state.next(event).0.stage is Pruning,
        state.next(event).1 is RemoveStale <==> state.stage is Pruning,
        state.next(event).1 is PruneOrphans ==> (match state.stage {
            LibraryStage::Importing { at } => at + 1 == state.plan.len(),
            LibraryStage::Listing => state.next(event).0.plan.len() == 0,
            _ => false,
        }),
{
}

/// A catalog that has no source or cannot be opened is passed over: the next one follows as if it
/// had been imported.
pub proof fn law_catalogs_that_cannot_be_read_are_passed_over(
    state: LibraryModel,
    outcome: ImportOutcome,
)
    requires
        state.stage is Importing,
    ensures
        state.next(LibraryEventOf::Imported(outcome)) == state.next(
            LibraryEventOf::Imported(ImportOutcome::Imported),
        ),
{
}

/// The items to refresh are counted with the first page, and never again once a count is known.
pub proof fn law_items_are_counted_once(state: LibraryModel, event: LibraryEventModel)
    requires
        state.expects(event),
        state.next(event).1 is FetchRefreshable,
    ensures
        state.next(event).1->count <==> state.total is None,
        state.total is Some ==> state.next(event).0.total == state.total,
{
}

/// Where each page holds ascending ids behind the cursor it was asked for, the cursor grows with
/// every page that holds anything.
pub proof fn law_cursor_moves_forward(state: LibraryModel, ids: Seq<u128>, count: Option<u32>)
    requires
        state.stage is Fetching,
        ids.len() > 0,
        forall|i: int, j: int| 0 <= i < j < ids.len() ==> ids[i] < ids[j],
        forall|i: int| 0 <= i < ids.len() ==> (state.cursor matches Some(c) ==> c < #[trigger] ids[i]),
    ensures
        ({
            let next = state.next(LibraryEventOf::Page { ids, count }).0;
            &&& next.cursor is Some
            &&& state.cursor matches Some(c) ==> c < next.cursor->0
            &&& forall|i: int| 0 <= i < ids.len() ==> #[trigger] ids[i] <= next.cursor->0
        }),
{
}

} // verus!

//! A catalog import, as a machine: each event that the outside reports is answered with the next
//! thing to do.

use std::collections::HashMap;

use vstd::prelude::*;

use crate::catalog::{catalog_collection, catalog_collection_id};
use crate::counts::{
    all_top_level, law_tally_total_grows, tally_total, tallied_all, KindCounts,
};
use crate::ids::NIL;
use crate::import_rules::{
    adopt_stored, adopted_all, admitted, all_fit, all_weighed, external_matches, fits, ids_of,
    is_known, is_new, item_ids, lemma_admitted_fits, make_relation_rows, make_tag_rows,
    not_imported, of_kind, relation_rows, remap_ids, remap_weights, remapped_ids,
    remapped_weights, select_kind, split_known, stale_members, stored_ids, tag_rows,
    take_admitted, wanted_matches, weigh, weighed, weights_from, RelationRow, TagRow, Weight,
};
use crate::lookup::{index_pairs, pairs_map};
use crate::media::{top_level, CatalogItem, MediaKind};
use crate::metadata::{MetaPass, PassDepth};
use crate::sequences::{batches, copied, in_batches, inner};

verus! {

/// Items pulled from a catalog at a time.
pub const STREAM_CHUNK: usize = 250;

/// Membership rows per statement: four bound values each.
pub const RELATION_CHUNK: usize = 200;

/// Tag rows per statement: two bound values each.
pub const TAG_CHUNK: usize = 400;

/// Stale members per statement.
pub const STALE_CHUNK: usize = 900;

/// Where an import stands, and what it waits for.
pub enum Stage<Items, Rows, Weights> {
    /// For the next chunk of the catalog.
    Pulling,
    /// For the rows stored under the ids of `items`.
    Looking { items: Items },
    /// For the rows found through external ids.
    Matching { items: Items, rows: Rows },
    /// For the metadata pass over `new`.
    Fetching { new: Items, existing: Items, weights: Weights },
    /// For the writes of one chunk.
    Writing { new: Items, existing: Items },
    /// For the members that the collection has.
    Comparing,
    /// For the removal of stale members.
    Removing,
    Finished,
    Failed,
}

/// What the outside reports.
pub enum Event<Items, Rows, Found, Pairs, Ids> {
    /// The next chunk of the catalog, `None` at its end.
    Chunk(Option<Items>),
    /// Id and kind of each stored row among the ids asked for.
    Rows(Rows),
    /// The stored rows could not be read.
    LookupFailed,
    /// For each item the row found through its external ids; only those asked for are read.
    Matched(Found),
    /// The metadata pass: which ids it replaced, `None` where it failed, and how many tags the
    /// catalog has.
    Metadata { remap: Option<Pairs>, tags: usize },
    /// What was to be written has been tried.
    Written,
    /// The members that the collection has.
    Members(Ids),
}

/// What to do next.
pub enum Action<Items, Ids, Flags, Relations, Tags, Batches> {
    /// Pull the next chunk of the catalog, up to this many items.
    Pull(usize),
    /// Read id and kind of the rows stored under these ids.
    LookupIds(Ids),
    /// Look for each wanted item by its external ids.
    Match { items: Items, wanted: Flags },
    /// Fetch and store metadata for these new items, in this way.
    FetchMetadata(Items, MetaPass),
    /// Reconcile the played state of these series, store these channels again, rebuild these
    /// playlists with a metadata pass of this kind, then write these membership rows and these tag
    /// rows, statement by statement.
    Write {
        reconcile: Ids,
        channels: Items,
        playlists: Items,
        rebuild: MetaPass,
        relations: Relations,
        tags: Tags,
    },
    /// Read the members of this collection.
    FetchMembers(u128),
    /// Remove these members, statement by statement.
    RemoveStale(Batches),
    /// The import is complete.
    Finish,
    /// The import failed.
    Fail,
}

pub type ImportStage = Stage<Vec<CatalogItem>, Vec<(u128, MediaKind)>, Vec<Weight>>;

pub type StageModel = Stage<Seq<CatalogItem>, Seq<(u128, MediaKind)>, Seq<Weight>>;

pub type ImportEvent = Event<
    Vec<CatalogItem>,
    Vec<(u128, MediaKind)>,
    Vec<Option<u128>>,
    Vec<(u128, u128)>,
    Vec<u128>,
>;

pub type EventModel = Event<
    Seq<CatalogItem>,
    Seq<(u128, MediaKind)>,
    Seq<Option<u128>>,
    Seq<(u128, u128)>,
    Seq<u128>,
>;

pub type ImportAction = Action<
    Vec<CatalogItem>,
    Vec<u128>,
    Vec<bool>,
    Vec<Vec<RelationRow>>,
    Vec<Vec<TagRow>>,
    Vec<Vec<u128>>,
>;

pub type ActionModel = Action<
    Seq<CatalogItem>,
    Seq<u128>,
    Seq<bool>,
    Seq<Seq<RelationRow>>,
    Seq<Seq<TagRow>>,
    Seq<Seq<u128>>,
>;

/// The contents of a stage.
pub open spec fn stage_model(stage: ImportStage) -> StageModel {
    match stage {
        Stage::Pulling => Stage::Pulling,
        Stage::Looking { items } => Stage::Looking { items: items@ },
        Stage::Matching { items, rows } => Stage::Matching { items: items@, rows: rows@ },
        Stage::Fetching { new, existing, weights } => Stage::Fetching {
            new: new@,
            existing: existing@,
            weights: weights@,
        },
        Stage::Writing { new, existing } => Stage::Writing { new: new@, existing: existing@ },
        Stage::Comparing => Stage::Comparing,
        Stage::Removing => Stage::Removing,
        Stage::Finished => Stage::Finished,
        Stage::Failed => Stage::Failed,
    }
}

/// The contents of an event.
pub open spec fn event_model(event: ImportEvent) -> EventModel {
    match event {
        Event::Chunk(Some(items)) => Event::Chunk(Some(items@)),
        Event::Chunk(None) => Event::Chunk(None),
        Event::Rows(rows) => Event::Rows(rows@),
        Event::LookupFailed => Event::LookupFailed,
        Event::Matched(found) => Event::Matched(found@),
        Event::Metadata { remap: Some(pairs), tags } => Event::Metadata {
            remap: Some(pairs@),
            tags,
        },
        Event::Metadata { remap: None, tags } => Event::Metadata { remap: None, tags },
        Event::Written => Event::Written,
        Event::Members(ids) => Event::Members(ids@),
    }
}

/// The contents of an action.
pub open spec fn action_model(action: ImportAction) -> ActionModel {
    match action {
        Action::Pull(n) => Action::Pull(n),
        Action::LookupIds(ids) => Action::LookupIds(ids@),
        Action::Match { items, wanted } => Action::Match { items: items@, wanted: wanted@ },
        Action::FetchMetadata(items, pass) => Action::FetchMetadata(items@, pass),
        Action::Write { reconcile, channels, playlists, rebuild, relations, tags } => Action::Write {
            reconcile: reconcile@,
            channels: channels@,
            playlists: playlists@,
            rebuild,
            relations: inner(relations@),
            tags: inner(tags@),
        },
        Action::FetchMembers(id) => Action::FetchMembers(id),
        Action::RemoveStale(ids) => Action::RemoveStale(inner(ids@)),
        Action::Finish => Action::Finish,
        Action::Fail => Action::Fail,
    }
}

/// How metadata is fetched for new items: with all that is below them, whatever is stored already.
pub open spec fn new_items_pass() -> MetaPass {
    MetaPass { depth: PassDepth::Tree, force: true }
}

/// How metadata is fetched for items that are stored already: with all that is below them, as far
/// as it is due.
pub open spec fn known_items_pass() -> MetaPass {
    MetaPass { depth: PassDepth::Tree, force: false }
}

/// The state of an import.
pub struct ImportModel {
    /// The most items it takes.
    pub max: nat,
    /// The items pulled so far.
    pub pulled: nat,
    /// The collection its members belong to, or nil.
    pub collection_id: u128,
    /// The items of each kind so far.
    pub counts: Map<MediaKind, nat>,
    /// Those of them that were new.
    pub new_counts: Map<MediaKind, nat>,
    /// The catalog position of the next item.
    pub position: int,
    /// The ids seen so far, as they were written.
    pub imported: Seq<u128>,
    pub stage: StageModel,
}

impl ImportModel {
    /// The state at the start of an import of catalog `media_id`.
    pub open spec fn start(media_id: Seq<char>, max: nat) -> ImportModel {
        ImportModel {
            max,
            pulled: 0,
            collection_id: catalog_collection(media_id),
            counts: Map::empty(),
            new_counts: Map::empty(),
            position: 0,
            imported: Seq::empty(),
            stage: Stage::Pulling,
        }
    }

    /// How many more items fit.
    pub open spec fn room(self) -> int {
        self.max - tally_total(self.counts)
    }

    /// How many items to ask for next.
    pub open spec fn ask(self) -> int {
        if self.max - self.pulled < STREAM_CHUNK {
            self.max - self.pulled
        } else {
            STREAM_CHUNK as int
        }
    }

    /// What holds in every state: no more than `max` items are pulled, counted or under way, all of
    /// kinds that stand on their own, and no playlist under way keeps more than `max` relations;
    /// what is new is not more than what is counted; every position that waits for its row belongs
    /// to an id that was seen; and every item that waits for the metadata pass has a position.
    pub open spec fn valid(self) -> bool {
        &&& self.pulled <= self.max <= usize::MAX
        &&& tally_total(self.new_counts) <= tally_total(self.counts) <= self.max
        &&& 0 <= self.position <= i64::MAX
        &&& match self.stage {
            Stage::Looking { items } | Stage::Matching { items, .. } => {
                &&& items.len() <= self.room()
                &&& all_fit(items, self.max)
                &&& self.position + items.len() <= i64::MAX
            },
            Stage::Fetching { new, existing, weights } => {
                &&& new.len() + existing.len() <= self.room()
                &&& all_fit(new, self.max)
                &&& all_fit(existing, self.max)
                &&& forall|i: int|
                    0 <= i < weights.len() ==> self.imported.contains((#[trigger] weights[i]).id)
                &&& all_weighed(new, weights)
                &&& all_weighed(existing, weights)
            },
            Stage::Writing { new, existing } => {
                &&& new.len() + existing.len() <= self.room()
                &&& all_fit(new, self.max)
                &&& all_fit(existing, self.max)
            },
            _ => true,
        }
    }

    /// Whether this state waits for `event`.
    pub open spec fn expects(self, event: EventModel) -> bool {
        match (self.stage, event) {
            (Stage::Pulling, Event::Chunk(Some(items))) => {
                &&& items.len() <= self.ask()
                &&& self.position + items.len() <= i64::MAX
            },
            (Stage::Pulling, Event::Chunk(None)) => true,
            (Stage::Looking { .. }, Event::Rows(_)) => true,
            (Stage::Looking { .. }, Event::LookupFailed) => true,
            (Stage::Matching { items, .. }, Event::Matched(found)) => found.len() == items.len(),
            (Stage::Fetching { .. }, Event::Metadata { .. }) => true,
            (Stage::Writing { .. }, Event::Written) => true,
            (Stage::Comparing, Event::Members(_)) => true,
            (Stage::Removing, Event::Written) => true,
            _ => false,
        }
    }

    /// No more chunks are pulled: members that were not seen are looked for, unless there is no
    /// collection or nothing was seen.
    pub open spec fn close(self) -> (ImportModel, ActionModel) {
        if self.collection_id != NIL && self.imported.len() > 0 {
            (
                ImportModel { stage: Stage::Comparing, ..self },
                Action::FetchMembers(self.collection_id),
            )
        } else {
            (ImportModel { stage: Stage::Finished, ..self }, Action::Finish)
        }
    }

    /// The next chunk is pulled, unless `max` items were.
    pub open spec fn pull(self) -> (ImportModel, ActionModel) {
        if self.ask() == 0 {
            self.close()
        } else {
            (ImportModel { stage: Stage::Pulling, ..self }, Action::Pull(self.ask() as usize))
        }
    }

    /// The items of a chunk have their stored ids: they take the next catalog positions, and the
    /// new ones go to the metadata pass.
    pub open spec fn place(self, placed: Seq<CatalogItem>, stored: Set<u128>) -> (
        ImportModel,
        ActionModel,
    ) {
        let new = placed.filter(is_new(stored));
        (
            ImportModel {
                position: self.position + placed.len(),
                imported: self.imported + item_ids(placed),
                stage: Stage::Fetching {
                    new,
                    existing: placed.filter(is_known(stored)),
                    weights: weights_from(placed, self.position),
                },
                ..self
            },
            Action::FetchMetadata(new, new_items_pass()),
        )
    }

    /// The membership rows and tag rows of a chunk, by statement, under the ids that its items were
    /// written under; none where there is no collection.
    pub open spec fn rows_of(
        self,
        new: Seq<CatalogItem>,
        existing: Seq<CatalogItem>,
        weights: Seq<Weight>,
        remap: Map<u128, u128>,
        tags: nat,
    ) -> (Seq<Seq<RelationRow>>, Seq<Seq<TagRow>>) {
        if self.collection_id != NIL {
            (
                batches(
                    relation_rows(self.collection_id, remapped_weights(remap, weights)),
                    RELATION_CHUNK as int,
                ),
                batches(tag_rows(remap, new, existing, tags), TAG_CHUNK as int),
            )
        } else {
            (Seq::empty(), Seq::empty())
        }
    }

    /// The metadata pass is done: what was seen is known by the ids it was written under, and so
    /// are the membership rows, the tag rows and the series to reconcile.
    pub open spec fn write(
        self,
        new: Seq<CatalogItem>,
        existing: Seq<CatalogItem>,
        weights: Seq<Weight>,
        pairs: Seq<(u128, u128)>,
        tags: nat,
    ) -> (ImportModel, ActionModel) {
        let map = pairs_map(pairs);
        let rows = self.rows_of(new, existing, weights, map, tags);
        (
            ImportModel {
                imported: remapped_ids(map, self.imported),
                stage: Stage::Writing { new, existing },
                ..self
            },
            Action::Write {
                reconcile: remapped_ids(map, item_ids(new.filter(of_kind(MediaKind::Series)))),
                channels: existing.filter(of_kind(MediaKind::TvChannel)),
                playlists: existing.filter(of_kind(MediaKind::Playlist)),
                rebuild: known_items_pass(),
                relations: rows.0,
                tags: rows.1,
            },
        )
    }

    /// The next state and the next action.
    pub open spec fn next(self, event: EventModel) -> (ImportModel, ActionModel) {
        match (self.stage, event) {
            (Stage::Pulling, Event::Chunk(Some(items))) => {
                let got = ImportModel { pulled: self.pulled + items.len(), ..self };
                if got.room() == 0 || items.len() == 0 {
                    got.close()
                } else {
                    let taken = admitted(items, got.room(), got.max);
                    if taken.len() == 0 {
                        got.place(taken, Set::empty())
                    } else {
                        (
                            ImportModel { stage: Stage::Looking { items: taken }, ..got },
                            Action::LookupIds(item_ids(taken)),
                        )
                    }
                }
            },
            (Stage::Pulling, _) => self.close(),
            (Stage::Looking { items }, Event::Rows(rows)) => (
                ImportModel { stage: Stage::Matching { items, rows }, ..self },
                Action::Match { items, wanted: external_matches(items, pairs_map(rows)) },
            ),
            (Stage::Looking { .. }, _) => (
                ImportModel { stage: Stage::Failed, ..self },
                Action::Fail,
            ),
            (Stage::Matching { items, rows }, Event::Matched(found)) => self.place(
                adopted_all(items, pairs_map(rows), found),
                stored_ids(items, pairs_map(rows), found),
            ),
            (
                Stage::Fetching { new, existing, weights },
                Event::Metadata { remap: Some(pairs), tags },
            ) => self.write(new, existing, weights, pairs, tags as nat),
            (Stage::Fetching { .. }, _) => self.pull(),
            (Stage::Writing { new, existing }, _) => {
                let counted = ImportModel {
                    counts: tallied_all(self.counts, new + existing),
                    new_counts: tallied_all(self.new_counts, new),
                    ..self
                };
                if counted.room() <= 0 {
                    counted.close()
                } else {
                    counted.pull()
                }
            },
            (Stage::Comparing, Event::Members(members)) => {
                let stale = members.filter(not_imported(self.imported));
                if stale.len() == 0 {
                    (ImportModel { stage: Stage::Finished, ..self }, Action::Finish)
                } else {
                    (
                        ImportModel { stage: Stage::Removing, ..self },
                        Action::RemoveStale(batches(stale, STALE_CHUNK as int)),
                    )
                }
            },
            _ => (ImportModel { stage: Stage::Finished, ..self }, Action::Finish),
        }
    }
}

/// An import of one catalog.
pub struct ImportRun {
    max: usize,
    pulled: usize,
    collection_id: u128,
    counts: KindCounts,
    new_counts: KindCounts,
    position: i64,
    imported: Vec<u128>,
    stage: ImportStage,
}

impl View for ImportRun {
    type V = ImportModel;

    closed spec fn view(&self) -> ImportModel {
        ImportModel {
            max: self.max as nat,
            pulled: self.pulled as nat,
            collection_id: self.collection_id,
            counts: self.counts@,
            new_counts: self.new_counts@,
            position: self.position as int,
            imported: self.imported@,
            stage: stage_model(self.stage),
        }
    }
}

/// Items that may be under way are of kinds that stand on their own.
pub proof fn lemma_fitting_items_are_top_level(
    a: Seq<CatalogItem>,
    b: Seq<CatalogItem>,
    max: nat,
)
    requires
        all_fit(a, max),
        all_fit(b, max),
    ensures
        all_top_level(a),
        all_top_level(b),
        all_top_level(a + b),
{
    assert forall|i: int| 0 <= i < a.len() implies top_level((#[trigger] a[i]).kind) by {
        assert(fits(a[i], max));
    }
    assert forall|i: int| 0 <= i < b.len() implies top_level((#[trigger] b[i]).kind) by {
        assert(fits(b[i], max));
    }
    assert forall|i: int| 0 <= i < (a + b).len() implies top_level((#[trigger] (a + b)[i]).kind) by {
        if i < a.len() {
            assert((a + b)[i] == a[i]);
        } else {
            assert((a + b)[i] == b[i - a.len()]);
        }
    }
}

proof fn lemma_tally_concat(
    tally: Map<MediaKind, nat>,
    a: Seq<CatalogItem>,
    b: Seq<CatalogItem>,
)
    ensures
        tallied_all(tallied_all(tally, a), b) == tallied_all(tally, a + b),
    decreases b.len(),
{
    if b.len() == 0 {
        assert(a + b =~= a);
    } else {
        lemma_tally_concat(tally, a, b.drop_last());
        assert((a + b).drop_last() =~= a + b.drop_last());
    }
}

/// New and known items together are all items.
pub proof fn lemma_split_sizes(items: Seq<CatalogItem>, stored: Set<u128>)
    ensures
        items.filter(is_new(stored)).len() + items.filter(is_known(stored)).len() == items.len(),
    decreases items.len(),
{
    reveal(Seq::filter);
    if items.len() > 0 {
        lemma_split_sizes(items.drop_last(), stored);
    }
}

proof fn lemma_filter_fits(
    items: Seq<CatalogItem>,
    pred: spec_fn(CatalogItem) -> bool,
    max: nat,
)
    requires
        all_fit(items, max),
    ensures
        all_fit(items.filter(pred), max),
    decreases items.len(),
{
    reveal(Seq::filter);
    if items.len() > 0 {
        let front = items.drop_last();
        assert forall|i: int| 0 <= i < front.len() implies fits(#[trigger] front[i], max) by {
            assert(items[i] == front[i]);
        }
        lemma_filter_fits(front, pred, max);
        assert(fits(items[items.len() - 1], max));
    }
}

proof fn lemma_adopted_fits(
    items: Seq<CatalogItem>,
    stored: Map<u128, MediaKind>,
    found: Seq<Option<u128>>,
    max: nat,
)
    requires
        all_fit(items, max),
    ensures
        all_fit(adopted_all(items, stored, found), max),
{
    let placed = adopted_all(items, stored, found);
    assert forall|i: int| 0 <= i < placed.len() implies fits(#[trigger] placed[i], max) by {
        assert(fits(items[i], max));
    }
}

proof fn lemma_weights_are_imported(before: Seq<u128>, placed: Seq<CatalogItem>, start: int)
    ensures
        ({
            let weights = weights_from(placed, start);
            forall|i: int|
                0 <= i < weights.len() ==> (before + item_ids(placed)).contains(
                    (#[trigger] weights[i]).id,
                )
        }),
{
    let weights = weights_from(placed, start);
    let all = before + item_ids(placed);
    assert forall|i: int| 0 <= i < weights.len() implies all.contains((#[trigger] weights[i]).id) by {
        assert(all[before.len() + i] == item_ids(placed)[i]);
    }
}

proof fn lemma_placed_are_weighed(
    placed: Seq<CatalogItem>,
    start: int,
    pred: spec_fn(CatalogItem) -> bool,
)
    ensures
        all_weighed(placed.filter(pred), weights_from(placed, start)),
{
    let items = placed.filter(pred);
    let weights = weights_from(placed, start);
    assert forall|i: int| 0 <= i < items.len() implies weighed(#[trigger] items[i], weights) by {
        assert(items.contains(items[i]));
        placed.lemma_filter_contains_rev(pred, items[i]);
        let k = choose|k: int| 0 <= k < placed.len() && placed[k] == items[i];
        assert(weights[k].id == items[i].id);
    }
}

/// Every step leads from a valid state to a valid state.
pub proof fn law_step_keeps_state_valid(state: ImportModel, event: EventModel)
    requires
        state.valid(),
        state.expects(event),
    ensures
        state.next(event).0.valid(),
{
    match (state.stage, event) {
        (Stage::Pulling, Event::Chunk(Some(items))) => {
            let room = state.room();
            if room > 0 && items.len() > 0 {
                let taken = admitted(items, room, state.max);
                lemma_admitted_fits(items, room, state.max);
                if taken.len() == 0 {
                    lemma_split_sizes(taken, Set::empty());
                    lemma_weights_are_imported(state.imported, taken, state.position);
                    lemma_placed_are_weighed(taken, state.position, is_new(Set::empty()));
                    lemma_placed_are_weighed(taken, state.position, is_known(Set::empty()));
                }
            }
        },
        (Stage::Matching { items, rows }, Event::Matched(found)) => {
            let placed = adopted_all(items, pairs_map(rows), found);
            let ids = stored_ids(items, pairs_map(rows), found);
            lemma_adopted_fits(items, pairs_map(rows), found, state.max);
            lemma_split_sizes(placed, ids);
            lemma_filter_fits(placed, is_new(ids), state.max);
            lemma_filter_fits(placed, is_known(ids), state.max);
            lemma_weights_are_imported(state.imported, placed, state.position);
            lemma_placed_are_weighed(placed, state.position, is_new(ids));
            lemma_placed_are_weighed(placed, state.position, is_known(ids));
        },
        (Stage::Writing { new, existing }, _) => {
            lemma_fitting_items_are_top_level(new, existing, state.max);
            law_tally_total_grows(state.counts, new + existing);
            law_tally_total_grows(state.new_counts, new);
        },
        _ => {},
    }
}

impl ImportRun {
    /// Items counted so far, and the number that counts as all.
    pub fn progress(&self) -> (r: (usize, usize))
        requires
            self@.valid(),
        ensures
            r.0 == tally_total(self@.counts),
            r.1 == if self@.max == 0 {
                1
            } else {
                self@.max
            },
    {
        let all: usize = if self.max == 0 {
            1
        } else {
            self.max
        };
        (self.counts.total(), all)
    }

    /// The items of each kind so far, and those of them that were new.
    pub fn counts(&self) -> (r: (KindCounts, KindCounts))
        ensures
            r.0@ == self@.counts,
            r.1@ == self@.new_counts,
    {
        (self.counts, self.new_counts)
    }

    fn closed(self) -> (r: (ImportRun, ImportAction))
        ensures
            (r.0@, action_model(r.1)) == self@.close(),
    {
        if self.collection_id != NIL && self.imported.len() > 0 {
            let id: u128 = self.collection_id;
            (ImportRun { stage: Stage::Comparing, ..self }, Action::FetchMembers(id))
        } else {
            (ImportRun { stage: Stage::Finished, ..self }, Action::Finish)
        }
    }

    fn pull(self) -> (r: (ImportRun, ImportAction))
        requires
            self@.pulled <= self@.max,
        ensures
            (r.0@, action_model(r.1)) == self@.pull(),
    {
        let left: usize = self.max - self.pulled;
        let ask: usize = if left < STREAM_CHUNK {
            left
        } else {
            STREAM_CHUNK
        };
        if ask == 0 {
            self.closed()
        } else {
            (ImportRun { stage: Stage::Pulling, ..self }, Action::Pull(ask))
        }
    }

    fn placed(self, placed: Vec<CatalogItem>, stored: &std::collections::HashSet<u128>) -> (r: (
        ImportRun,
        ImportAction,
    ))
        requires
            0 <= self@.position,
            self@.position + placed.len() <= i64::MAX,
        ensures
            (r.0@, action_model(r.1)) == self@.place(placed@, stored@),
    {
        let (new, existing) = split_known(&placed, stored);
        let weights: Vec<Weight> = weigh(&placed, self.position);
        let mut imported: Vec<u128> = self.imported;
        let mut ids: Vec<u128> = ids_of(&placed);
        imported.append(&mut ids);
        let fetch: Vec<CatalogItem> = copied(&new);
        let position: i64 = self.position + placed.len() as i64;
        (
            ImportRun {
                max: self.max,
                pulled: self.pulled,
                collection_id: self.collection_id,
                counts: self.counts,
                new_counts: self.new_counts,
                position,
                imported,
                stage: Stage::Fetching { new, existing, weights },
            },
            Action::FetchMetadata(
                fetch,
                MetaPass { depth: PassDepth::Tree, force: true },
            ),
        )
    }

    fn written(
        self,
        new: Vec<CatalogItem>,
        existing: Vec<CatalogItem>,
        weights: &Vec<Weight>,
        pairs: &Vec<(u128, u128)>,
        tags: usize,
    ) -> (r: (ImportRun, ImportAction))
        ensures
            (r.0@, action_model(r.1)) == self@.write(
                new@,
                existing@,
                weights@,
                pairs@,
                tags as nat,
            ),
    {
        let map: HashMap<u128, u128> = index_pairs(pairs);
        let moved: Vec<Weight> = remap_weights(&map, weights);
        let imported: Vec<u128> = remap_ids(&map, &self.imported);
        let reconcile: Vec<u128> = remap_ids(&map, &ids_of(&select_kind(&new, MediaKind::Series)));
        let channels: Vec<CatalogItem> = select_kind(&existing, MediaKind::TvChannel);
        let playlists: Vec<CatalogItem> = select_kind(&existing, MediaKind::Playlist);
        let mut relations: Vec<Vec<RelationRow>> = Vec::new();
        let mut tag_batches: Vec<Vec<TagRow>> = Vec::new();
        if self.collection_id != NIL {
            relations =
            in_batches(&make_relation_rows(self.collection_id, &moved), RELATION_CHUNK);
            tag_batches = in_batches(&make_tag_rows(&map, &new, &existing, tags), TAG_CHUNK);
        } else {
            assert(inner(relations@) =~= Seq::empty());
            assert(inner(tag_batches@) =~= Seq::empty());
        }
        (
            ImportRun {
                max: self.max,
                pulled: self.pulled,
                collection_id: self.collection_id,
                counts: self.counts,
                new_counts: self.new_counts,
                position: self.position,
                imported,
                stage: Stage::Writing { new, existing },
            },
            Action::Write {
                reconcile,
                channels,
                playlists,
                rebuild: MetaPass { depth: PassDepth::Tree, force: false },
                relations,
                tags: tag_batches,
            },
        )
    }

    /// Takes an event and answers with the next thing to do.
    pub fn step(self, event: ImportEvent) -> (r: (ImportRun, ImportAction))
        requires
            self@.valid(),
            self@.expects(event_model(event)),
        ensures
            (r.0@, action_model(r.1)) == self@.next(event_model(event)),
            r.0@.valid(),
    {
        proof {
            law_step_keeps_state_valid(self@, event_model(event));
        }
        let ImportRun { max, pulled, collection_id, counts, new_counts, position, imported, stage } =
            self;
        let rest = ImportRun {
            max,
            pulled,
            collection_id,
            counts,
            new_counts,
            position,
            imported,
            stage: Stage::Pulling,
        };
        match (stage, event) {
            (Stage::Pulling, Event::Chunk(Some(items))) => {
                let room: usize = max - counts.total();
                let rest = ImportRun { pulled: pulled + items.len(), ..rest };
                if room == 0 || items.len() == 0 {
                    rest.closed()
                } else {
                    let taken: Vec<CatalogItem> = take_admitted(&items, room, max);
                    if taken.len() == 0 {
                        let none: std::collections::HashSet<u128> = std::collections::HashSet::new();
                        rest.placed(taken, &none)
                    } else {
                        let ids: Vec<u128> = ids_of(&taken);
                        (
                            ImportRun { stage: Stage::Looking { items: taken }, ..rest },
                            Action::LookupIds(ids),
                        )
                    }
                }
            },
            (Stage::Pulling, _) => rest.closed(),
            (Stage::Looking { items }, Event::Rows(rows)) => {
                let wanted: Vec<bool> = wanted_matches(&items, &rows);
                let asked: Vec<CatalogItem> = copied(&items);
                (
                    ImportRun { stage: Stage::Matching { items, rows }, ..rest },
                    Action::Match { items: asked, wanted },
                )
            },
            (Stage::Looking { items: _ }, _) => (
                ImportRun { stage: Stage::Failed, ..rest },
                Action::Fail,
            ),
            (Stage::Matching { items, rows }, Event::Matched(found)) => {
                let (placed, stored) = adopt_stored(&items, &rows, &found);
                rest.placed(placed, &stored)
            },
            (
                Stage::Fetching { new, existing, weights },
                Event::Metadata { remap: Some(pairs), tags },
            ) => rest.written(new, existing, &weights, &pairs, tags),
            (Stage::Fetching { .. }, _) => rest.pull(),
            (Stage::Writing { new, existing }, _) => {
                let mut counted: KindCounts = counts;
                let mut new_counted: KindCounts = new_counts;
                proof {
                    lemma_fitting_items_are_top_level(new@, existing@, max as nat);
                    law_tally_total_grows(counts@, new@);
                    law_tally_total_grows(counts@, new@ + existing@);
                    lemma_tally_concat(counts@, new@, existing@);
                }
                counted.record_all(&new);
                counted.record_all(&existing);
                new_counted.record_all(&new);
                let run = ImportRun { counts: counted, new_counts: new_counted, ..rest };
                if counted.total() >= max {
                    run.closed()
                } else {
                    run.pull()
                }
            },
            (Stage::Comparing, Event::Members(members)) => {
                let stale: Vec<u128> = stale_members(&members, &rest.imported);
                if stale.len() == 0 {
                    (ImportRun { stage: Stage::Finished, ..rest }, Action::Finish)
                } else {
                    (
                        ImportRun { stage: Stage::Removing, ..rest },
                        Action::RemoveStale(in_batches(&stale, STALE_CHUNK)),
                    )
                }
            },
            _ => (ImportRun { stage: Stage::Finished, ..rest }, Action::Finish),
        }
    }
}

/// Starts an import of catalog `media_id` that takes at most `max` items, and says what to do first.
pub fn import_catalog_items(media_id: &str, max: usize) -> (r: (ImportRun, ImportAction))
    ensures
        (r.0@, action_model(r.1)) == ImportModel::start(media_id@, max as nat).pull(),
        r.0@.valid(),
{
    let run = ImportRun {
        max,
        pulled: 0,
        collection_id: catalog_collection_id(media_id),
        counts: KindCounts::new(),
        new_counts: KindCounts::new(),
        position: 0,
        imported: Vec::new(),
        stage: Stage::Pulling,
    };
    run.pull()
}

} // verus!

//! What each step of a catalog import does with the items and rows that it is given.

use vstd::prelude::*;

use crate::catalog::catalog_collection;
use crate::counts::{law_tally_total_grows, tally_total};
use crate::ids::{octets, uuid_v5};
use crate::import::{
    lemma_fitting_items_are_top_level, lemma_split_sizes, Action, ActionModel, Event, ImportModel,
    Stage, StageModel, RELATION_CHUNK, TAG_CHUNK,
};
use crate::import_laws::begun;
use crate::import_rules::{
    admitted, adopted_all, is_known, is_new, item_ids, item_tag_rows, known_as, limited, of_kind,
    relation_rows, remapped, remapped_weights, stands_alone, stored_ids, tag_rows, Weight,
};
use crate::lookup::{lemma_pairs_map_domain, pairs_map};
use crate::media::{CatalogItem, MediaKind};
use crate::sequences::law_batches_lose_nothing;

verus! {

// ---------------------------------------------------------------------------------------------
// How a run goes on

/// Whether a run asks for the next chunk: for as many items as are missing to its maximum, and for
/// no more than 250.
pub open spec fn asks_for_more(before: ImportModel, next: ImportModel, action: ActionModel) -> bool {
    &&& next.stage is Pulling
    &&& action matches Action::Pull(n)
    &&& n == if before.max - next.pulled < 250 {
        before.max - next.pulled
    } else {
        250
    }
    &&& n > 0
}

/// Whether a run has pulled its last chunk: it turns to the members of its collection, where it has
/// one and saw anything, and ends otherwise.
pub open spec fn turns_to_members(next: ImportModel, action: ActionModel) -> bool {
    if next.collection_id != 0 && next.imported.len() > 0 {
        next.stage is Comparing && action == (ActionModel::FetchMembers(next.collection_id))
    } else {
        next.stage is Finished && action is Finish
    }
}

/// A run starts with nothing seen and nothing counted, at the first position of the catalog, and
/// asks for items as long as it may take any.
pub proof fn law_run_starts_from_nothing(media_id: Seq<char>, max: nat)
    requires
        max <= usize::MAX,
    ensures
        ({
            let (next, action) = ImportModel::start(media_id, max).pull();
            &&& next == begun(media_id, max)
            &&& next.max == max
            &&& next.pulled == 0
            &&& next.position == 0
            &&& next.imported.len() == 0
            &&& next.collection_id == catalog_collection(media_id)
            &&& forall|kind: MediaKind|
                !next.counts.dom().contains(kind) && !next.new_counts.dom().contains(kind)
            &&& max > 0 ==> asks_for_more(next, next, action)
            &&& max == 0 ==> turns_to_members(next, action)
        }),
{
}

/// The end of the catalog turns a run to the members of its collection, and leaves what it has
/// counted and seen as it is.
pub proof fn law_end_of_the_catalog(state: ImportModel)
    requires
        state.stage is Pulling,
    ensures
        ({
            let (next, action) = state.next(Event::Chunk(None));
            &&& turns_to_members(next, action)
            &&& next.counts == state.counts
            &&& next.new_counts == state.new_counts
            &&& next.imported == state.imported
            &&& next.collection_id == state.collection_id
        }),
{
}

/// A run whose lookup of stored rows fails, fails.
pub proof fn law_failed_lookup_fails_the_run(state: ImportModel)
    requires
        state.stage is Looking,
    ensures
        state.next(Event::LookupFailed).1 is Fail,
        state.next(Event::LookupFailed).0.stage is Failed,
{
}

/// A run whose metadata pass fails goes on: with the next chunk, unless it has pulled all it may.
pub proof fn law_failed_metadata_pass_is_passed_over(state: ImportModel, tags: usize)
    requires
        state.valid(),
        state.stage is Fetching,
    ensures
        ({
            let (next, action) = state.next(Event::Metadata { remap: None, tags });
            &&& state.pulled < state.max ==> asks_for_more(state, next, action)
            &&& state.pulled == state.max ==> turns_to_members(next, action)
            &&& next.pulled == state.pulled
            &&& next.imported == state.imported
            &&& next.collection_id == state.collection_id
        }),
{
}

/// Once a chunk is written, the next one is pulled, unless as many items as the run may take were
/// counted or pulled.
pub proof fn law_run_goes_on_until_its_maximum(
    state: ImportModel,
    new: Seq<CatalogItem>,
    existing: Seq<CatalogItem>,
)
    requires
        state.valid(),
        state.stage == (StageModel::Writing { new, existing }),
    ensures
        ({
            let (next, action) = state.next(Event::Written);
            let counted = tally_total(state.counts) + new.len() + existing.len();
            &&& tally_total(next.counts) == counted
            &&& tally_total(next.new_counts) == tally_total(state.new_counts) + new.len()
            &&& counted < state.max && state.pulled < state.max ==> asks_for_more(
                state,
                next,
                action,
            )
            &&& counted >= state.max || state.pulled == state.max ==> turns_to_members(next, action)
            &&& next.pulled == state.pulled
            &&& next.imported == state.imported
            &&& next.collection_id == state.collection_id
            &&& next.position == state.position
        }),
{
    lemma_fitting_items_are_top_level(new, existing, state.max);
    law_tally_total_grows(state.counts, new + existing);
    law_tally_total_grows(state.new_counts, new);
}

/// A run ends once its stale members are removed, or where there are none.
pub proof fn law_run_ends_with_its_stale_members(state: ImportModel, members: Seq<u128>)
    ensures
        state.stage is Removing ==> state.next(Event::Written).1 is Finish && state.next(
            Event::Written,
        ).0.stage is Finished,
        state.stage is Comparing && (forall|k: int|
            0 <= k < members.len() ==> state.imported.contains(#[trigger] members[k]))
            ==> state.next(Event::Members(members)).1 is Finish,
        state.stage is Comparing && (exists|k: int|
            0 <= k < members.len() && !state.imported.contains(#[trigger] members[k]))
            ==> state.next(Event::Members(members)).1 is RemoveStale,
{
    let pred = crate::import_rules::not_imported(state.imported);
    let stale = members.filter(pred);
    if stale.len() > 0 {
        members.lemma_filter_pred(pred, 0);
        assert(stale.contains(stale[0]));
        members.lemma_filter_contains_rev(pred, stale[0]);
        let k = choose|k: int| 0 <= k < members.len() && members[k] == stale[0];
        assert(!state.imported.contains(members[k]));
    }
    if exists|k: int| 0 <= k < members.len() && !state.imported.contains(#[trigger] members[k]) {
        let k = choose|k: int|
            0 <= k < members.len() && !state.imported.contains(#[trigger] members[k]);
        members.lemma_filter_contains(pred, k);
    }
}

// ---------------------------------------------------------------------------------------------
// Which items are taken

/// Whether a catalog item is of one of the seven kinds that are imported.
pub open spec fn is_importable(item: CatalogItem) -> bool {
    item.kind is Movie || item.kind is Series || item.kind is Artist || item.kind is TvChannel
        || item.kind is Album || item.kind is Track || item.kind is Playlist
}

/// An item as an import of at most `max` items keeps it: a playlist with no more relations than
/// that, everything else as it is.
pub open spec fn kept_item(item: CatalogItem, max: nat) -> CatalogItem {
    CatalogItem {
        handle: item.handle,
        id: item.id,
        kind: item.kind,
        relations: if item.kind is Playlist && item.relations > max {
            max as usize
        } else {
            item.relations
        },
    }
}

/// Of a chunk, a run takes the importable items among the first ones that it has room for, in
/// order, and looks their ids up; it takes nothing where it has no room, and goes on without a
/// lookup where there is nothing to take.
pub proof fn law_importable_items_are_taken(state: ImportModel, items: Seq<CatalogItem>)
    requires
        state.valid(),
        state.stage is Pulling,
        items.len() <= usize::MAX,
    ensures
        ({
            let (next, action) = state.next(Event::Chunk(Some(items)));
            let room = state.max - tally_total(state.counts);
            let fitting = if items.len() > room {
                items.take(room)
            } else {
                items
            };
            let taken = fitting.filter(|item: CatalogItem| is_importable(item)).map_values(
                |item: CatalogItem| kept_item(item, state.max),
            );
            &&& next.pulled == state.pulled + items.len()
            &&& next.counts == state.counts
            &&& next.new_counts == state.new_counts
            &&& next.collection_id == state.collection_id
            &&& room == 0 || items.len() == 0 ==> turns_to_members(next, action) && next.imported
                == state.imported
            &&& room > 0 && items.len() > 0 && taken.len() > 0 ==> {
                &&& next.stage == (StageModel::Looking { items: taken })
                &&& action == (ActionModel::LookupIds(
                    taken.map_values(|item: CatalogItem| item.id),
                ))
                &&& next.imported == state.imported
                &&& next.position == state.position
            }
            &&& room > 0 && items.len() > 0 && taken.len() == 0 ==> {
                &&& action matches Action::FetchMetadata(new, _)
                &&& new.len() == 0
                &&& next.imported == state.imported
                &&& next.position == state.position
            }
        }),
{
    let room = state.room();
    let fitting = if items.len() > room {
        items.take(room)
    } else {
        items
    };
    let own = |item: CatalogItem| is_importable(item);
    assert(own =~= stands_alone());
    let taken = fitting.filter(own).map_values(|item: CatalogItem| kept_item(item, state.max));
    assert forall|k: int| 0 <= k < taken.len() implies taken[k] == admitted(
        items,
        room,
        state.max,
    )[k] by {
        let item = fitting.filter(own)[k];
        assert(limited(item, state.max) == kept_item(item, state.max));
    }
    assert(taken =~= admitted(items, room, state.max));
    assert(item_ids(taken) =~= taken.map_values(|item: CatalogItem| item.id));
    lemma_split_sizes(taken, Set::empty());
    if taken.len() == 0 {
        assert(state.imported + item_ids(taken) =~= state.imported);
    }
}

// ---------------------------------------------------------------------------------------------
// Stored identities

/// Whether some row is stored under `id`.
pub open spec fn is_stored(rows: Seq<(u128, MediaKind)>, id: u128) -> bool {
    exists|k: int| 0 <= k < rows.len() && (#[trigger] rows[k]).0 == id
}

/// An item is looked for by its external ids exactly if it is neither a channel nor a playlist and
/// no row is stored under its own id.
pub proof fn law_stubs_are_looked_for(
    state: ImportModel,
    items: Seq<CatalogItem>,
    rows: Seq<(u128, MediaKind)>,
    i: int,
)
    requires
        state.stage == (StageModel::Looking { items }),
        0 <= i < items.len(),
    ensures
        ({
            let (next, action) = state.next(Event::Rows(rows));
            &&& next == (ImportModel { stage: Stage::Matching { items, rows }, ..state })
            &&& action matches Action::Match { items: asked, wanted }
            &&& asked == items
            &&& wanted.len() == items.len()
            &&& wanted[i] <==> !(items[i].kind is TvChannel) && !(items[i].kind is Playlist)
                && forall|k: int|
                0 <= k < rows.len() ==> (#[trigger] rows[k]).0 != items[i].id
        }),
{
    lemma_pairs_map_domain(rows, items[i].id);
}

/// The id that an item has in the end: its own where it is a channel or a playlist, or where a row
/// is stored under its own id; else that of the row found through its external ids; else its own.
pub open spec fn settled_id(
    item: CatalogItem,
    rows: Seq<(u128, MediaKind)>,
    found: Option<u128>,
) -> u128 {
    if item.kind is TvChannel || item.kind is Playlist || is_stored(rows, item.id) || found is None {
        item.id
    } else {
        found->0
    }
}

/// Whether a row holds an item already. A channel or a playlist is held by a row of its own id and
/// kind only; any other item by a row of its own id, or by one found through its external ids.
pub open spec fn is_held(
    item: CatalogItem,
    rows: Seq<(u128, MediaKind)>,
    found: Option<u128>,
) -> bool {
    if item.kind is TvChannel || item.kind is Playlist {
        exists|k: int|
            0 <= k < rows.len() && (#[trigger] rows[k]).0 == item.id && rows[k].1 == item.kind
    } else {
        is_stored(rows, item.id) || found is Some
    }
}

/// Whether no id is listed twice.
pub open spec fn ids_are_distinct(rows: Seq<(u128, MediaKind)>) -> bool {
    forall|a: int, b: int|
        0 <= a < b < rows.len() ==> (#[trigger] rows[a]).0 != (#[trigger] rows[b]).0
}

proof fn lemma_known_as(item: CatalogItem, rows: Seq<(u128, MediaKind)>, found: Option<u128>)
    requires
        ids_are_distinct(rows),
    ensures
        is_held(item, rows, found) <==> known_as(item, pairs_map(rows), found) is Some,
        is_held(item, rows, found) ==> known_as(item, pairs_map(rows), found) == Some(
            settled_id(item, rows, found),
        ),
        !is_held(item, rows, found) ==> settled_id(item, rows, found) == item.id,
{
    lemma_pairs_map_domain(rows, item.id);
    if is_stored(rows, item.id) {
        let k = choose|k: int| 0 <= k < rows.len() && (#[trigger] rows[k]).0 == item.id;
        assert forall|j: int| k < j < rows.len() implies (#[trigger] rows[j]).0 != rows[k].0 by {
            assert(rows[k].0 != rows[j].0);
        }
        crate::lookup::law_last_pair_counts(rows, k);
        if exists|j: int|
            0 <= j < rows.len() && (#[trigger] rows[j]).0 == item.id && rows[j].1 == item.kind {
            let j = choose|j: int|
                0 <= j < rows.len() && (#[trigger] rows[j]).0 == item.id && rows[j].1 == item.kind;
            if j < k {
                assert(rows[j].0 != rows[k].0);
            }
            if k < j {
                assert(rows[k].0 != rows[j].0);
            }
        }
        if rows[k].1 == item.kind {
            assert(rows[k].0 == item.id && rows[k].1 == item.kind);
        }
    }
}

/// Every item of a chunk gets its settled id before it gets its position, and positions follow the
/// stream; what is seen is seen under the settled ids.
pub proof fn law_items_settle_before_they_are_placed(
    state: ImportModel,
    items: Seq<CatalogItem>,
    rows: Seq<(u128, MediaKind)>,
    found: Seq<Option<u128>>,
    i: int,
)
    requires
        state.valid(),
        state.stage == (StageModel::Matching { items, rows }),
        found.len() == items.len(),
        ids_are_distinct(rows),
        0 <= i < items.len(),
    ensures
        ({
            let (next, action) = state.next(Event::Matched(found));
            let id = settled_id(items[i], rows, found[i]);
            &&& next.stage matches Stage::Fetching { weights, .. }
            &&& weights.len() == items.len()
            &&& weights[i].id == id
            &&& weights[i].weight == state.position + i
            &&& next.position == state.position + items.len()
            &&& next.imported.len() == state.imported.len() + items.len()
            &&& next.imported[state.imported.len() + i] == id
            &&& forall|k: int|
                0 <= k < state.imported.len() ==> #[trigger] next.imported[k] == state.imported[k]
            &&& next.counts == state.counts
            &&& next.new_counts == state.new_counts
        }),
{
    lemma_known_as(items[i], rows, found[i]);
}

/// An item goes to the metadata pass exactly if no row holds an item of the chunk under the same
/// id; the others stay in the chunk as known ones. Each keeps its kind, and none is lost.
pub proof fn law_held_items_are_known(
    state: ImportModel,
    items: Seq<CatalogItem>,
    rows: Seq<(u128, MediaKind)>,
    found: Seq<Option<u128>>,
    i: int,
)
    requires
        state.stage == (StageModel::Matching { items, rows }),
        found.len() == items.len(),
        ids_are_distinct(rows),
        0 <= i < items.len(),
    ensures
        ({
            let (next, action) = state.next(Event::Matched(found));
            let id = settled_id(items[i], rows, found[i]);
            let settled = CatalogItem { id, ..items[i] };
            let held = exists|j: int|
                0 <= j < items.len() && is_held(#[trigger] items[j], rows, found[j])
                    && settled_id(items[j], rows, found[j]) == id;
            &&& action matches Action::FetchMetadata(fetched, _)
            &&& next.stage matches Stage::Fetching { new, existing, .. }
            &&& fetched == new
            &&& new.len() + existing.len() == items.len()
            &&& held ==> existing.contains(settled) && !new.contains(settled)
            &&& !held ==> new.contains(settled) && !existing.contains(settled)
        }),
{
    let map = pairs_map(rows);
    let placed = adopted_all(items, map, found);
    let stored = stored_ids(items, map, found);
    let id = settled_id(items[i], rows, found[i]);
    let settled = CatalogItem { id, ..items[i] };
    let new = placed.filter(is_new(stored));
    let existing = placed.filter(is_known(stored));
    lemma_known_as(items[i], rows, found[i]);
    assert(placed[i] == settled);
    lemma_split_sizes(placed, stored);
    let held = exists|j: int|
        0 <= j < items.len() && is_held(#[trigger] items[j], rows, found[j]) && settled_id(
            items[j],
            rows,
            found[j],
        ) == id;
    if held {
        let j = choose|j: int|
            0 <= j < items.len() && is_held(#[trigger] items[j], rows, found[j]) && settled_id(
                items[j],
                rows,
                found[j],
            ) == id;
        lemma_known_as(items[j], rows, found[j]);
        assert(known_as(items[j], map, found[j]) == Some(id));
        assert(stored.contains(id));
        placed.lemma_filter_contains(is_known(stored), i);
    }
    if stored.contains(id) {
        let j = choose|j: int|
            0 <= j < items.len() && #[trigger] known_as(items[j], map, found[j]) == Some(id);
        lemma_known_as(items[j], rows, found[j]);
        assert(is_held(items[j], rows, found[j]));
        assert(held);
    } else {
        placed.lemma_filter_contains(is_new(stored), i);
    }
    if new.contains(settled) {
        let k = choose|k: int| 0 <= k < new.len() && new[k] == settled;
        placed.lemma_filter_pred(is_new(stored), k);
    }
    if existing.contains(settled) {
        let k = choose|k: int| 0 <= k < existing.len() && existing[k] == settled;
        placed.lemma_filter_pred(is_known(stored), k);
    }
}

// ---------------------------------------------------------------------------------------------
// What is written

/// The id that an item was written under, where the metadata pass replaced the ids in `pairs`: what
/// the last pair for its id says, else its own id.
pub open spec fn is_written_as(pairs: Seq<(u128, u128)>, id: u128, written: u128) -> bool {
    ||| exists|k: int|
        0 <= k < pairs.len() && #[trigger] pairs[k] == (id, written) && forall|j: int|
            k < j < pairs.len() ==> (#[trigger] pairs[j]).0 != id
    ||| written == id && forall|k: int| 0 <= k < pairs.len() ==> (#[trigger] pairs[k]).0 != id
}

proof fn lemma_written_as(pairs: Seq<(u128, u128)>, id: u128)
    ensures
        is_written_as(pairs, id, remapped(pairs_map(pairs), id)),
    decreases pairs.len(),
{
    if pairs.len() > 0 {
        let front = pairs.drop_last();
        let written = remapped(pairs_map(pairs), id);
        lemma_written_as(front, id);
        if pairs.last().0 == id {
            assert(pairs[pairs.len() - 1] == (id, written));
        } else if exists|k: int|
            0 <= k < front.len() && #[trigger] front[k] == (id, written) && forall|j: int|
                k < j < front.len() ==> (#[trigger] front[j]).0 != id {
            let k = choose|k: int|
                0 <= k < front.len() && #[trigger] front[k] == (id, written) && forall|j: int|
                    k < j < front.len() ==> (#[trigger] front[j]).0 != id;
            assert(pairs[k] == (id, written));
            assert forall|j: int| k < j < pairs.len() implies (#[trigger] pairs[j]).0 != id by {
                if j < front.len() {
                    assert(front[j] == pairs[j]);
                }
            }
        } else {
            assert forall|k: int| 0 <= k < pairs.len() implies (#[trigger] pairs[k]).0 != id by {
                if k < front.len() {
                    assert(front[k] == pairs[k]);
                }
            }
        }
    }
}

/// Every item of a chunk gets one membership row, in the order of the stream: of its collection, at
/// its position, for the id that it was written under, and under the id that these two make. What
/// was seen is known by the ids it was written under. Without a collection no row is written.
pub proof fn law_every_position_gets_its_membership(
    state: ImportModel,
    new: Seq<CatalogItem>,
    existing: Seq<CatalogItem>,
    weights: Seq<Weight>,
    pairs: Seq<(u128, u128)>,
    tags: usize,
    i: int,
)
    requires
        state.stage == (StageModel::Fetching { new, existing, weights }),
    ensures
        ({
            let (next, action) = state.next(Event::Metadata { remap: Some(pairs), tags });
            &&& next.stage == (StageModel::Writing { new, existing })
            &&& next.imported.len() == state.imported.len()
            &&& 0 <= i < state.imported.len() ==> is_written_as(
                pairs,
                state.imported[i],
                next.imported[i],
            )
            &&& next.counts == state.counts
            &&& next.new_counts == state.new_counts
            &&& next.pulled == state.pulled
            &&& next.position == state.position
            &&& next.collection_id == state.collection_id
            &&& action matches Action::Write { relations, tags: tagged, .. }
            &&& state.collection_id == 0 ==> relations.len() == 0 && tagged.len() == 0
            &&& state.collection_id != 0 ==> relations.flatten().len() == weights.len()
            &&& state.collection_id != 0 && 0 <= i < weights.len() ==> {
                let row = relations.flatten()[i];
                &&& row.collection_id == state.collection_id
                &&& row.weight == weights[i].weight
                &&& is_written_as(pairs, weights[i].id, row.item_id)
                &&& row.relation_id == uuid_v5(state.collection_id, octets(row.item_id))
            }
        }),
{
    let map = pairs_map(pairs);
    let rows = relation_rows(state.collection_id, remapped_weights(map, weights));
    law_batches_lose_nothing(rows, RELATION_CHUNK as int);
    if 0 <= i < state.imported.len() {
        lemma_written_as(pairs, state.imported[i]);
    }
    if 0 <= i < weights.len() {
        lemma_written_as(pairs, weights[i].id);
    }
}

/// The series to reconcile are the new series, in order, under the ids that they were written
/// under; the channels to store again and the playlists to rebuild are the known ones, as they are.
pub proof fn law_what_is_done_with_each_kind(
    state: ImportModel,
    new: Seq<CatalogItem>,
    existing: Seq<CatalogItem>,
    weights: Seq<Weight>,
    pairs: Seq<(u128, u128)>,
    tags: usize,
    i: int,
)
    requires
        state.stage == (StageModel::Fetching { new, existing, weights }),
    ensures
        ({
            let series = new.filter(|item: CatalogItem| item.kind is Series);
            let action = state.next(Event::Metadata { remap: Some(pairs), tags }).1;
            &&& action matches Action::Write { reconcile, channels, playlists, .. }
            &&& reconcile.len() == series.len()
            &&& 0 <= i < series.len() ==> is_written_as(pairs, series[i].id, reconcile[i])
            &&& channels == existing.filter(|item: CatalogItem| item.kind is TvChannel)
            &&& playlists == existing.filter(|item: CatalogItem| item.kind is Playlist)
        }),
{
    let series = |item: CatalogItem| item.kind is Series;
    let channels = |item: CatalogItem| item.kind is TvChannel;
    let playlists = |item: CatalogItem| item.kind is Playlist;
    assert(series =~= of_kind(MediaKind::Series));
    assert(channels =~= of_kind(MediaKind::TvChannel));
    assert(playlists =~= of_kind(MediaKind::Playlist));
    if 0 <= i < new.filter(series).len() {
        lemma_written_as(pairs, new.filter(series)[i].id);
    }
}

proof fn lemma_tag_rows(
    map: Map<u128, u128>,
    items: Seq<CatalogItem>,
    tags: nat,
    k: int,
    t: int,
)
    requires
        tags <= usize::MAX,
    ensures
        ({
            let rows = items.flat_map(item_tag_rows(map, tags));
            &&& rows.len() == items.len() * tags
            &&& 0 <= k < items.len() && 0 <= t < tags ==> {
                &&& 0 <= k * tags + t < rows.len()
                &&& rows[k * tags + t].media_id == remapped(map, items[k].id)
                &&& rows[k * tags + t].tag == t
            }
        }),
    decreases items.len(),
{
    let f = item_tag_rows(map, tags);
    let rows = items.flat_map(f);
    if items.len() == 0 {
        assert(rows =~= Seq::empty());
        assert(items.len() * tags == 0) by (nonlinear_arith)
            requires
                items.len() == 0,
        ;
    } else {
        let front = items.drop_last();
        lemma_tag_rows(map, front, tags, k, t);
        front.lemma_flat_map_push(f, items.last());
        assert(front.push(items.last()) =~= items);
        let n = front.len();
        assert((n + 1) * tags == n * tags + tags) by (nonlinear_arith);
        if 0 <= k < items.len() && 0 <= t < tags {
            if k < n {
                assert(k * tags + t < n * tags) by (nonlinear_arith)
                    requires
                        0 <= k < n,
                        0 <= t < tags,
                ;
            }
            assert(0 <= k * tags) by (nonlinear_arith)
                requires
                    0 <= k,
                    0 <= tags,
            ;
        }
    }
}

/// Every item of a chunk, the new ones first, gets every tag of the catalog once, in order, under
/// the id that it was written under.
pub proof fn law_tags_are_written_once_for_each_item(
    state: ImportModel,
    new: Seq<CatalogItem>,
    existing: Seq<CatalogItem>,
    weights: Seq<Weight>,
    pairs: Seq<(u128, u128)>,
    tags: usize,
    k: int,
    t: int,
)
    requires
        state.stage == (StageModel::Fetching { new, existing, weights }),
        state.collection_id != 0,
    ensures
        ({
            let all = new + existing;
            let action = state.next(Event::Metadata { remap: Some(pairs), tags }).1;
            &&& action matches Action::Write { tags: tagged, .. }
            &&& tagged.flatten().len() == all.len() * tags
            &&& 0 <= k < all.len() && 0 <= t < tags ==> {
                &&& is_written_as(pairs, all[k].id, tagged.flatten()[k * tags + t].media_id)
                &&& tagged.flatten()[k * tags + t].tag == t
            }
        }),
{
    let map = pairs_map(pairs);
    let all = new + existing;
    law_batches_lose_nothing(tag_rows(map, new, existing, tags as nat), TAG_CHUNK as int);
    lemma_tag_rows(map, all, tags as nat, k, t);
    if 0 <= k < all.len() {
        lemma_written_as(pairs, all[k].id);
    }
}

} // verus!

//! What holds of every catalog import.

use vstd::prelude::*;

use crate::catalog::catalog_collection;
use crate::counts::{law_tally_counts_kinds, tally_of, tally_total};
use crate::ids::NIL;
use crate::import::{
    law_step_keeps_state_valid, Action, Event, EventModel, ImportModel, Stage, StageModel,
    RELATION_CHUNK, STALE_CHUNK, TAG_CHUNK,
};
use crate::import_rules::{
    adopted, adopted_all, admitted, fits, is_known, is_new, item_ids, item_tag_rows, known_as,
    lemma_admitted_fits, not_imported, of_kind, provider_identified, relation_rows, remapped,
    remapped_ids, remapped_weights, stored_ids, tag_rows, weighed, RelationRow, TagRow, Weight,
};
use crate::lookup::pairs_map;
use crate::media::{CatalogItem, MediaKind};
use crate::sequences::{
    batches, law_batches_lose_nothing, lemma_from_flatten, lemma_in_flatten,
};

verus! {

// ---------------------------------------------------------------------------------------------
// Whole runs

/// The state after `events`.
pub open spec fn after(state: ImportModel, events: Seq<EventModel>) -> ImportModel
    decreases events.len(),
{
    if events.len() == 0 {
        state
    } else {
        after(state, events.drop_last()).next(events.last()).0
    }
}

/// Whether each of `events` is one that the import waits for when it comes.
pub open spec fn in_turn(state: ImportModel, events: Seq<EventModel>) -> bool
    decreases events.len(),
{
    events.len() == 0 || {
        &&& in_turn(state, events.drop_last())
        &&& after(state, events.drop_last()).expects(events.last())
    }
}

/// The state in which an import of catalog `media_id` waits for its first event.
pub open spec fn begun(media_id: Seq<char>, max: nat) -> ImportModel {
    ImportModel::start(media_id, max).pull().0
}

/// However a run goes, it stays valid, it pulls and counts no more than `max` items, its collection
/// is the one that the catalog id names, and its catalog position never falls.
pub proof fn law_run_stays_within_max(media_id: Seq<char>, max: nat, events: Seq<EventModel>)
    requires
        max <= usize::MAX,
        in_turn(begun(media_id, max), events),
    ensures
        after(begun(media_id, max), events).valid(),
        after(begun(media_id, max), events).max == max,
        after(begun(media_id, max), events).pulled <= max,
        tally_total(after(begun(media_id, max), events).counts) <= max,
        after(begun(media_id, max), events).collection_id == catalog_collection(
            media_id,
        ),
        events.len() > 0 ==> after(
            begun(media_id, max),
            events.drop_last(),
        ).position <= after(begun(media_id, max), events).position,
    decreases events.len(),
{
    let start = begun(media_id, max);
    if events.len() > 0 {
        law_run_stays_within_max(media_id, max, events.drop_last());
        let state = after(start, events.drop_last());
        law_step_keeps_state_valid(state, events.last());
        lemma_step_frame(state, events.last());
    }
}

proof fn lemma_step_frame(state: ImportModel, event: EventModel)
    ensures
        state.next(event).0.max == state.max,
        state.next(event).0.collection_id == state.collection_id,
        state.position <= state.next(event).0.position,
{
}

/// What an import hands on honours its maximum inside playlists, too: of what a playlist holds, no
/// more than `max` relations are kept.
pub proof fn law_playlists_keep_no_more_than_max(
    state: ImportModel,
    event: EventModel,
    item: CatalogItem,
)
    requires
        state.valid(),
        state.expects(event),
        item.kind == MediaKind::Playlist,
        match state.next(event).1 {
            Action::FetchMetadata(items, _) => items.contains(item),
            Action::Write { playlists, .. } => playlists.contains(item),
            _ => false,
        },
    ensures
        item.relations <= state.max,
{
    law_step_keeps_state_valid(state, event);
    let (next, action) = state.next(event);
    match next.stage {
        Stage::Fetching { new, .. } => {
            let k = choose|k: int| 0 <= k < new.len() && new[k] == item;
            assert(fits(new[k], state.max));
        },
        Stage::Writing { existing, .. } => {
            existing.lemma_filter_contains_rev(of_kind(MediaKind::Playlist), item);
            let k = choose|k: int| 0 <= k < existing.len() && existing[k] == item;
            assert(fits(existing[k], state.max));
        },
        _ => {},
    }
}

// ---------------------------------------------------------------------------------------------
// Stored identities

/// Content that is already stored skips the metadata pass: what is fetched are the items under
/// ids that no stored row was found for, and an item found under an id stays in the chunk under
/// that id, among the known ones.
pub proof fn law_stored_content_skips_metadata(
    state: ImportModel,
    items: Seq<CatalogItem>,
    rows: Seq<(u128, MediaKind)>,
    found: Seq<Option<u128>>,
    i: int,
)
    requires
        state.stage == (StageModel::Matching { items, rows }),
        found.len() == items.len(),
        0 <= i < items.len(),
        known_as(items[i], pairs_map(rows), found[i]) is Some,
    ensures
        ({
            let id = known_as(items[i], pairs_map(rows), found[i])->0;
            let (next, action) = state.next(Event::Matched(found));
            &&& action matches Action::FetchMetadata(new, _)
            &&& forall|k: int| 0 <= k < new.len() ==> (#[trigger] new[k]).id != id
            &&& next.stage matches Stage::Fetching { new: fetched, existing, weights }
            &&& fetched == new
            &&& existing.contains(CatalogItem { id, ..items[i] })
            &&& weights[i].id == id
        }),
{
    let map = pairs_map(rows);
    let id = known_as(items[i], map, found[i])->0;
    let placed = adopted_all(items, map, found);
    let stored = stored_ids(items, map, found);
    assert(stored.contains(id));
    let new = placed.filter(is_new(stored));
    assert forall|k: int| 0 <= k < new.len() implies (#[trigger] new[k]).id != id by {
        placed.lemma_filter_pred(is_new(stored), k);
    }
    assert(placed[i] == (CatalogItem { id, ..items[i] }));
    placed.lemma_filter_contains(is_known(stored), i);
}

/// Every metadata pass over new items is forced, no pass over stored playlists is, and both reach
/// all that is below the items.
pub proof fn law_only_new_items_are_forced(state: ImportModel, event: EventModel)
    ensures
        match state.next(event).1 {
            Action::FetchMetadata(_, pass) => pass.force && pass.depth is Tree,
            Action::Write { rebuild, .. } => !rebuild.force && rebuild.depth is Tree,
            _ => true,
        },
{
}

/// A channel or a playlist counts as stored exactly if a row of its own id has its kind, whatever
/// was found through external ids.
pub proof fn law_channels_and_playlists_match_by_id_and_kind(
    item: CatalogItem,
    stored: Map<u128, MediaKind>,
    found: Option<u128>,
)
    requires
        provider_identified(item.kind),
    ensures
        known_as(item, stored, found) == known_as(item, stored, None),
        known_as(item, stored, found) is Some <==> stored.dom().contains(item.id)
            && stored[item.id] == item.kind,
        adopted(item, stored, found) == item,
{
}

/// A stub whose own id is not stored takes the id of the row that its external ids identify.
pub proof fn law_stub_adopts_the_identified_row(
    item: CatalogItem,
    stored: Map<u128, MediaKind>,
    id: u128,
)
    requires
        !provider_identified(item.kind),
        !stored.dom().contains(item.id),
    ensures
        adopted(item, stored, Some(id)) == (CatalogItem { id, ..item }),
        adopted(item, stored, None) == item,
{
}

// ---------------------------------------------------------------------------------------------
// Positions and memberships

/// The position of an item depends on its place in the stream alone: the items of a chunk take the
/// next positions one after the other, whether they are new or known.
pub proof fn law_positions_follow_the_stream(
    state: ImportModel,
    placed: Seq<CatalogItem>,
    stored: Set<u128>,
    i: int,
)
    requires
        state.valid(),
        state.position + placed.len() <= i64::MAX,
        0 <= i < placed.len(),
    ensures
        ({
            let next = state.place(placed, stored).0;
            &&& next.position == state.position + placed.len()
            &&& next.stage matches Stage::Fetching { weights, .. }
            &&& weights.len() == placed.len()
            &&& weights[i].id == placed[i].id
            &&& weights[i].weight == state.position + i
        }),
{
}

/// The membership rows of a chunk carry, in stream order, the collection, the position and the id
/// that each item was written under, and every id with a row counts as seen, so that the removal
/// of stale members spares it.
pub proof fn law_written_members_are_seen(
    state: ImportModel,
    new: Seq<CatalogItem>,
    existing: Seq<CatalogItem>,
    weights: Seq<Weight>,
    pairs: Seq<(u128, u128)>,
    tags: usize,
    i: int,
)
    requires
        state.valid(),
        state.stage == (StageModel::Fetching { new, existing, weights }),
        state.collection_id != NIL,
        0 <= i < weights.len(),
    ensures
        ({
            let (next, action) = state.next(Event::Metadata { remap: Some(pairs), tags });
            &&& action matches Action::Write { relations, .. }
            &&& relations.flatten().len() == weights.len()
            &&& relations.flatten()[i].collection_id == state.collection_id
            &&& relations.flatten()[i].weight == weights[i].weight
            &&& relations.flatten()[i].item_id == remapped(pairs_map(pairs), weights[i].id)
            &&& next.imported.contains(relations.flatten()[i].item_id)
        }),
{
    let map = pairs_map(pairs);
    let rows = relation_rows(state.collection_id, remapped_weights(map, weights));
    law_batches_lose_nothing(rows, RELATION_CHUNK as int);
    assert(state.imported.contains(weights[i].id));
    let k = choose|k: int| 0 <= k < state.imported.len() && state.imported[k] == weights[i].id;
    assert(remapped_ids(map, state.imported)[k] == remapped(map, weights[i].id));
}

/// Every tag row of a chunk names an item that has a membership row in the same chunk: the id that
/// the item was written under, whatever id it came with.
pub proof fn law_tags_go_to_members(
    state: ImportModel,
    new: Seq<CatalogItem>,
    existing: Seq<CatalogItem>,
    weights: Seq<Weight>,
    pairs: Seq<(u128, u128)>,
    tags: usize,
    i: int,
)
    requires
        state.valid(),
        state.stage == (StageModel::Fetching { new, existing, weights }),
        match state.next(Event::Metadata { remap: Some(pairs), tags }).1 {
            Action::Write { tags: batched, .. } => 0 <= i < batched.flatten().len(),
            _ => false,
        },
    ensures
        ({
            let action = state.next(Event::Metadata { remap: Some(pairs), tags }).1;
            let tagged = action->Write_tags.flatten()[i];
            let members = action->relations.flatten();
            &&& exists|k: int|
                0 <= k < members.len() && (#[trigger] members[k]).item_id == tagged.media_id
            &&& exists|k: int|
                0 <= k < (new + existing).len() && tagged.media_id == remapped(
                    pairs_map(pairs),
                    (#[trigger] (new + existing)[k]).id,
                )
            &&& tagged.tag < tags
        }),
{
    let map = pairs_map(pairs);
    let all = new + existing;
    let f = item_tag_rows(map, tags as nat);
    let rows = tag_rows(map, new, existing, tags as nat);
    let members = relation_rows(state.collection_id, remapped_weights(map, weights));
    law_batches_lose_nothing(rows, TAG_CHUNK as int);
    law_batches_lose_nothing(members, RELATION_CHUNK as int);
    assert(state.collection_id != NIL) by {
        if state.collection_id == NIL {
            assert(Seq::<Seq<TagRow>>::empty().flatten() =~= Seq::<TagRow>::empty());
        }
    }
    let (k, t) = lemma_from_flatten(all.map_values(f), i);
    assert(rows[i] == f(all[k])[t]);
    assert(rows[i].media_id == remapped(map, (new + existing)[k].id));
    assert(rows[i].tag == t);
    if k < new.len() {
        assert(weighed(new[k], weights));
    } else {
        assert(weighed(existing[k - new.len()], weights));
    }
    let w = choose|w: int| 0 <= w < weights.len() && (#[trigger] weights[w]).id == all[k].id;
    assert(members[w].item_id == rows[i].media_id);
    let action = state.next(Event::Metadata { remap: Some(pairs), tags }).1;
    assert(action->Write_tags.flatten() == rows);
    assert(action->relations.flatten() == members);
}

/// Every item of a chunk with a collection gets every tag of the catalog.
pub proof fn law_every_item_gets_every_tag(
    state: ImportModel,
    new: Seq<CatalogItem>,
    existing: Seq<CatalogItem>,
    weights: Seq<Weight>,
    pairs: Seq<(u128, u128)>,
    tags: usize,
    k: int,
    t: usize,
)
    requires
        state.stage == (StageModel::Fetching { new, existing, weights }),
        state.collection_id != NIL,
        0 <= k < (new + existing).len(),
        t < tags,
    ensures
        ({
            let action = state.next(Event::Metadata { remap: Some(pairs), tags }).1;
            action->Write_tags.flatten().contains(
                TagRow { media_id: remapped(pairs_map(pairs), (new + existing)[k].id), tag: t },
            )
        }),
{
    let map = pairs_map(pairs);
    let all = new + existing;
    let f = item_tag_rows(map, tags as nat);
    law_batches_lose_nothing(tag_rows(map, new, existing, tags as nat), TAG_CHUNK as int);
    lemma_in_flatten(all.map_values(f), k, t as int);
    assert(f(all[k])[t as int].tag == t);
}

/// Every series that is new is reconciled under the id that it was written under.
pub proof fn law_new_series_are_reconciled(
    state: ImportModel,
    new: Seq<CatalogItem>,
    existing: Seq<CatalogItem>,
    weights: Seq<Weight>,
    pairs: Seq<(u128, u128)>,
    tags: usize,
    i: int,
)
    requires
        state.stage == (StageModel::Fetching { new, existing, weights }),
        0 <= i < new.len(),
        new[i].kind == MediaKind::Series,
    ensures
        state.next(Event::Metadata { remap: Some(pairs), tags }).1 matches Action::Write {
            reconcile,
            ..
        } && reconcile.contains(remapped(pairs_map(pairs), new[i].id)),
{
    let map = pairs_map(pairs);
    let series = new.filter(of_kind(MediaKind::Series));
    new.lemma_filter_contains(of_kind(MediaKind::Series), i);
    let k = choose|k: int| 0 <= k < series.len() && series[k] == new[i];
    assert(remapped_ids(map, item_ids(series))[k] == remapped(map, new[i].id));
}

/// Every known channel of a chunk is stored again, so that it never looks abandoned, and every
/// known playlist is rebuilt.
pub proof fn law_known_channels_are_stored_again(
    state: ImportModel,
    new: Seq<CatalogItem>,
    existing: Seq<CatalogItem>,
    weights: Seq<Weight>,
    pairs: Seq<(u128, u128)>,
    tags: usize,
    i: int,
)
    requires
        state.stage == (StageModel::Fetching { new, existing, weights }),
        0 <= i < existing.len(),
    ensures
        state.next(Event::Metadata { remap: Some(pairs), tags }).1 matches Action::Write {
            channels,
            playlists,
            ..
        } && (existing[i].kind == MediaKind::TvChannel ==> channels.contains(existing[i])) && (
        existing[i].kind == MediaKind::Playlist ==> playlists.contains(existing[i])),
{
    if existing[i].kind == MediaKind::TvChannel {
        existing.lemma_filter_contains(of_kind(MediaKind::TvChannel), i);
    }
    if existing[i].kind == MediaKind::Playlist {
        existing.lemma_filter_contains(of_kind(MediaKind::Playlist), i);
    }
}

/// No statement of an import binds more than 999 values: a membership row binds four, a tag row
/// two, a removal one for each member and one for the collection.
pub proof fn law_statements_stay_within_bound_values(
    relations: Seq<RelationRow>,
    tags: Seq<TagRow>,
    stale: Seq<u128>,
)
    ensures
        forall|k: int|
            0 <= k < batches(relations, RELATION_CHUNK as int).len() ==> 4 * (#[trigger] batches(
                relations,
                RELATION_CHUNK as int,
            )[k]).len() <= 999,
        forall|k: int|
            0 <= k < batches(tags, TAG_CHUNK as int).len() ==> 2 * (#[trigger] batches(
                tags,
                TAG_CHUNK as int,
            )[k]).len() <= 999,
        forall|k: int|
            0 <= k < batches(stale, STALE_CHUNK as int).len() ==> 1 + (#[trigger] batches(
                stale,
                STALE_CHUNK as int,
            )[k]).len() <= 999,
{
    law_batches_lose_nothing(relations, RELATION_CHUNK as int);
    law_batches_lose_nothing(tags, TAG_CHUNK as int);
    law_batches_lose_nothing(stale, STALE_CHUNK as int);
}

// ---------------------------------------------------------------------------------------------
// Stale members

/// What a run removes are exactly the members that it did not see.
pub proof fn law_removed_are_the_unseen_members(
    state: ImportModel,
    members: Seq<u128>,
    id: u128,
)
    requires
        state.stage == StageModel::Comparing,
    ensures
        ({
            let removed = match state.next(Event::Members(members)).1 {
                Action::RemoveStale(b) => b.flatten(),
                _ => Seq::<u128>::empty(),
            };
            removed.contains(id) <==> members.contains(id) && !state.imported.contains(id)
        }),
{
    let pred = not_imported(state.imported);
    let stale = members.filter(pred);
    law_batches_lose_nothing(stale, STALE_CHUNK as int);
    if stale.contains(id) {
        let k = choose|k: int| 0 <= k < stale.len() && stale[k] == id;
        members.lemma_filter_pred(pred, k);
        members.lemma_filter_contains_rev(pred, id);
    }
    if members.contains(id) && !state.imported.contains(id) {
        let k = choose|k: int| 0 <= k < members.len() && members[k] == id;
        members.lemma_filter_contains(pred, k);
    }
}

/// Members are looked at, and so removed, only in the collection of the catalog, only where it has
/// one, and only after a run that saw something.
pub proof fn law_nothing_is_removed_after_an_empty_run(state: ImportModel, event: EventModel)
    requires
        state.expects(event),
        state.next(event).1 is FetchMembers,
    ensures
        state.next(event).1->FetchMembers_0 == state.collection_id,
        state.collection_id != NIL,
        state.imported.len() > 0,
{
}

/// Whether an event leaves the id `id` as it is: no metadata pass replaces it.
pub open spec fn keeps_id(event: EventModel, id: u128) -> bool {
    match event {
        Event::Metadata { remap: Some(pairs), .. } => remapped(pairs_map(pairs), id) == id,
        _ => true,
    }
}

/// An id that was seen stays seen to the end of the run, as long as no later metadata pass replaces
/// it; so a member that a run wrote is spared by the removal at its end.
pub proof fn law_seen_ids_stay_seen(state: ImportModel, events: Seq<EventModel>, id: u128)
    requires
        state.imported.contains(id),
        in_turn(state, events),
        forall|i: int| 0 <= i < events.len() ==> keeps_id(#[trigger] events[i], id),
    ensures
        after(state, events).imported.contains(id),
    decreases events.len(),
{
    if events.len() > 0 {
        let front = events.drop_last();
        assert forall|i: int| 0 <= i < front.len() implies keeps_id(#[trigger] front[i], id) by {
            assert(front[i] == events[i]);
        }
        law_seen_ids_stay_seen(state, front, id);
        let before = after(state, front);
        let event = events.last();
        assert(keeps_id(events[events.len() - 1], id));
        let next = before.next(event).0;
        let k = choose|k: int| 0 <= k < before.imported.len() && before.imported[k] == id;
        match (before.stage, event) {
            (
                Stage::Fetching { .. },
                Event::Metadata { remap: Some(pairs), .. },
            ) => {
                assert(next.imported[k] == remapped(pairs_map(pairs), id));
            },
            _ => {
                assert(next.imported[k] == id);
            },
        }
    }
}

// ---------------------------------------------------------------------------------------------
// Counts

/// A chunk whose metadata pass failed is not counted and leaves no rows; the import goes on with
/// the next chunk.
pub proof fn law_failed_chunk_is_not_counted(state: ImportModel, tags: usize)
    requires
        state.stage is Fetching,
    ensures
        ({
            let (next, action) = state.next(Event::Metadata { remap: None, tags });
            &&& (next, action) == state.pull()
            &&& next.counts == state.counts
            &&& next.new_counts == state.new_counts
            &&& next.imported == state.imported
        }),
{
}

/// A written chunk adds to each kind the number of its items, and to the new ones the number of
/// its new items.
pub proof fn law_written_chunk_is_counted_by_kind(
    state: ImportModel,
    new: Seq<CatalogItem>,
    existing: Seq<CatalogItem>,
    kind: MediaKind,
)
    requires
        state.stage == (StageModel::Writing { new, existing }),
    ensures
        ({
            let next = state.next(Event::Written).0;
            &&& tally_of(next.counts, kind) == tally_of(state.counts, kind) + (new
                + existing).filter(of_kind(kind)).len()
            &&& tally_of(next.new_counts, kind) == tally_of(state.new_counts, kind) + new.filter(
                of_kind(kind),
            ).len()
        }),
{
    law_tally_counts_kinds(state.counts, new + existing, kind);
    law_tally_counts_kinds(state.new_counts, new, kind);
    assert(of_kind(kind) =~= |item: CatalogItem| item.kind == kind);
}

/// How many of `items` are of `kind`.
pub open spec fn kinds_among(items: Seq<CatalogItem>, kind: MediaKind) -> nat {
    items.filter(of_kind(kind)).len()
}

/// The items that an import takes of what `event` brings.
pub open spec fn taken_by(state: ImportModel, event: EventModel) -> Seq<CatalogItem> {
    match (state.stage, event) {
        (Stage::Pulling, Event::Chunk(Some(items))) => admitted(items, state.room(), state.max),
        _ => Seq::empty(),
    }
}

/// Those items of a chunk, under their stored ids, that no stored row was found for.
pub open spec fn new_by(state: ImportModel, event: EventModel) -> Seq<CatalogItem> {
    match (state.stage, event) {
        (Stage::Matching { items, rows }, Event::Matched(found)) => adopted_all(
            items,
            pairs_map(rows),
            found,
        ).filter(is_new(stored_ids(items, pairs_map(rows), found))),
        _ => Seq::empty(),
    }
}

/// The items that an import takes in the course of `events`.
pub open spec fn taken_in(state: ImportModel, events: Seq<EventModel>) -> Seq<CatalogItem>
    decreases events.len(),
{
    if events.len() == 0 {
        Seq::empty()
    } else {
        taken_in(state, events.drop_last()) + taken_by(
            after(state, events.drop_last()),
            events.last(),
        )
    }
}

/// Those items that no stored row is found for in the course of `events`.
pub open spec fn new_in(state: ImportModel, events: Seq<EventModel>) -> Seq<CatalogItem>
    decreases events.len(),
{
    if events.len() == 0 {
        Seq::empty()
    } else {
        new_in(state, events.drop_last()) + new_by(after(state, events.drop_last()), events.last())
    }
}

/// Whether an event reports that something failed.
pub open spec fn is_failure(event: EventModel) -> bool {
    match event {
        Event::LookupFailed => true,
        Event::Metadata { remap: None, .. } => true,
        _ => false,
    }
}

/// The items that were taken and are not counted yet.
pub open spec fn under_way(stage: StageModel) -> Seq<CatalogItem> {
    match stage {
        Stage::Looking { items } => items,
        Stage::Matching { items, .. } => items,
        Stage::Fetching { new, existing, .. } => new + existing,
        Stage::Writing { new, existing } => new + existing,
        _ => Seq::empty(),
    }
}

/// Those of them that no stored row was found for.
pub open spec fn new_under_way(stage: StageModel) -> Seq<CatalogItem> {
    match stage {
        Stage::Fetching { new, .. } => new,
        Stage::Writing { new, .. } => new,
        _ => Seq::empty(),
    }
}

proof fn lemma_kinds_add(a: Seq<CatalogItem>, b: Seq<CatalogItem>, kind: MediaKind)
    ensures
        kinds_among(a + b, kind) == kinds_among(a, kind) + kinds_among(b, kind),
{
    Seq::filter_distributes_over_add(a, b, of_kind(kind));
}

proof fn lemma_no_kinds_among_none(kind: MediaKind)
    ensures
        kinds_among(Seq::empty(), kind) == 0,
{
    reveal(Seq::filter);
}

/// Items of the same kinds count the same.
pub proof fn lemma_same_kinds(a: Seq<CatalogItem>, b: Seq<CatalogItem>, kind: MediaKind)
    requires
        a.len() == b.len(),
        forall|i: int| 0 <= i < a.len() ==> (#[trigger] a[i]).kind == b[i].kind,
    ensures
        kinds_among(a, kind) == kinds_among(b, kind),
    decreases a.len(),
{
    reveal(Seq::filter);
    if a.len() > 0 {
        let front = a.drop_last();
        assert forall|i: int| 0 <= i < front.len() implies (#[trigger] front[i]).kind
            == b.drop_last()[i].kind by {
            assert(a[i] == front[i]);
        }
        lemma_same_kinds(front, b.drop_last(), kind);
        assert(a[a.len() - 1].kind == b[b.len() - 1].kind);
    }
}

proof fn lemma_split_kinds(items: Seq<CatalogItem>, stored: Set<u128>, kind: MediaKind)
    ensures
        kinds_among(items.filter(is_new(stored)), kind) + kinds_among(
            items.filter(is_known(stored)),
            kind,
        ) == kinds_among(items, kind),
    decreases items.len(),
{
    reveal(Seq::filter);
    if items.len() > 0 {
        let front = items.drop_last();
        let item = items.last();
        lemma_split_kinds(front, stored, kind);
        front.filter(is_new(stored)).lemma_filter_push(item, of_kind(kind));
        front.filter(is_known(stored)).lemma_filter_push(item, of_kind(kind));
    }
}

proof fn lemma_step_counts_kinds(state: ImportModel, event: EventModel, kind: MediaKind)
    requires
        state.valid(),
        state.expects(event),
        !is_failure(event),
    ensures
        ({
            let next = state.next(event).0;
            &&& tally_of(next.counts, kind) + kinds_among(under_way(next.stage), kind) == tally_of(
                state.counts,
                kind,
            ) + kinds_among(under_way(state.stage), kind) + kinds_among(
                taken_by(state, event),
                kind,
            )
            &&& tally_of(next.new_counts, kind) + kinds_among(new_under_way(next.stage), kind)
                == tally_of(state.new_counts, kind) + kinds_among(new_under_way(state.stage), kind)
                + kinds_among(new_by(state, event), kind)
        }),
{
    lemma_no_kinds_among_none(kind);
    match (state.stage, event) {
        (Stage::Pulling, Event::Chunk(Some(items))) => {
            let room = state.room();
            let taken = admitted(items, room, state.max);
            lemma_admitted_fits(items, room, state.max);
            if taken.len() == 0 {
                assert(taken =~= Seq::<CatalogItem>::empty());
                lemma_split_kinds(taken, Set::empty(), kind);
                lemma_kinds_add(
                    taken.filter(is_new(Set::empty())),
                    taken.filter(is_known(Set::empty())),
                    kind,
                );
            }
        },
        (Stage::Matching { items, rows }, Event::Matched(found)) => {
            let placed = adopted_all(items, pairs_map(rows), found);
            let stored = stored_ids(items, pairs_map(rows), found);
            lemma_same_kinds(placed, items, kind);
            lemma_split_kinds(placed, stored, kind);
            lemma_kinds_add(
                placed.filter(is_new(stored)),
                placed.filter(is_known(stored)),
                kind,
            );
        },
        (Stage::Writing { new, existing }, _) => {
            law_written_chunk_is_counted_by_kind(state, new, existing, kind);
        },
        _ => {},
    }
}

/// In a run without failures, the counts hold of each kind as many items as were taken of that
/// kind, but for those under way; and the counts of new items as many as no stored row was found
/// for. Between chunks, and so at the end of the run, nothing is under way.
pub proof fn law_run_counts_what_it_takes(
    media_id: Seq<char>,
    max: nat,
    events: Seq<EventModel>,
    kind: MediaKind,
)
    requires
        max <= usize::MAX,
        in_turn(begun(media_id, max), events),
        forall|i: int| 0 <= i < events.len() ==> !is_failure(#[trigger] events[i]),
    ensures
        ({
            let start = begun(media_id, max);
            let end = after(start, events);
            &&& tally_of(end.counts, kind) + kinds_among(under_way(end.stage), kind)
                == kinds_among(taken_in(start, events), kind)
            &&& tally_of(end.new_counts, kind) + kinds_among(new_under_way(end.stage), kind)
                == kinds_among(new_in(start, events), kind)
            &&& end.stage is Pulling || end.stage is Comparing || end.stage is Removing
                || end.stage is Finished ==> {
                &&& tally_of(end.counts, kind) == kinds_among(taken_in(start, events), kind)
                &&& tally_of(end.new_counts, kind) == kinds_among(new_in(start, events), kind)
            }
        }),
    decreases events.len(),
{
    let start = begun(media_id, max);
    lemma_no_kinds_among_none(kind);
    if events.len() > 0 {
        let front = events.drop_last();
        let event = events.last();
        assert forall|i: int| 0 <= i < front.len() implies !is_failure(#[trigger] front[i]) by {
            assert(front[i] == events[i]);
        }
        assert(!is_failure(events[events.len() - 1]));
        law_run_counts_what_it_takes(media_id, max, front, kind);
        law_run_stays_within_max(media_id, max, front);
        let state = after(start, front);
        lemma_step_counts_kinds(state, event, kind);
        lemma_kinds_add(taken_in(start, front), taken_by(state, event), kind);
        lemma_kinds_add(new_in(start, front), new_by(state, event), kind);
    }
}

} // verus!

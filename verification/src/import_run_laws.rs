//! What a catalog import comes to at its end: which items of the stream it counts, and which members
//! its collection has.

use vstd::prelude::*;

use crate::catalog::catalog_collection;
use crate::counts::{law_tally_total_grows, tally_of, tally_total};
use crate::ids::NIL;
use crate::import::{
    lemma_fitting_items_are_top_level, lemma_split_sizes, Action, ActionModel, Event, EventModel,
    ImportModel, Stage, StageModel, RELATION_CHUNK, STALE_CHUNK,
};
use crate::import_laws::{
    after, begun, in_turn, is_failure, kinds_among, law_run_counts_what_it_takes,
    law_run_stays_within_max, lemma_same_kinds, taken_by, taken_in, under_way,
};
use crate::import_rules::{
    admitted, adopted_all, item_ids, lemma_admitted_fits, limited_all, not_imported,
    relation_rows, remapped, remapped_weights, stands_alone, stored_ids, weighed, weights_from,
    RelationRow,
};
use crate::lookup::{lemma_pairs_map_domain, pairs_map};
use crate::media::{CatalogItem, MediaKind};
use crate::sequences::law_batches_lose_nothing;

verus! {

// ---------------------------------------------------------------------------------------------
// The stream

/// The items that `event` brings from the stream.
pub open spec fn pulled_by(event: EventModel) -> Seq<CatalogItem> {
    match event {
        Event::Chunk(Some(items)) => items,
        _ => Seq::empty(),
    }
}

/// The items that `events` bring from the stream.
pub open spec fn pulled_in(events: Seq<EventModel>) -> Seq<CatalogItem>
    decreases events.len(),
{
    if events.len() == 0 {
        Seq::empty()
    } else {
        pulled_in(events.drop_last()) + pulled_by(events.last())
    }
}

/// Whether the chunks of `events` are what `stream` holds, in order, and its end is reported only
/// where it ends.
pub open spec fn drawn_from(events: Seq<EventModel>, stream: Seq<CatalogItem>) -> bool
    decreases events.len(),
{
    events.len() == 0 || {
        &&& drawn_from(events.drop_last(), stream)
        &&& pulled_in(events).is_prefix_of(stream)
        &&& match events.last() {
            Event::Chunk(None) => pulled_in(events) == stream,
            Event::Chunk(Some(items)) => items.len() == 0 ==> pulled_in(events) == stream,
            _ => true,
        }
    }
}

/// The first `max` items of `stream`, or all of them where there are no more.
pub open spec fn first_items(stream: Seq<CatalogItem>, max: nat) -> Seq<CatalogItem> {
    if stream.len() > max {
        stream.take(max as int)
    } else {
        stream
    }
}

/// Whether no more chunks are pulled.
pub open spec fn is_closed(stage: StageModel) -> bool {
    stage is Comparing || stage is Removing || stage is Finished
}

proof fn lemma_step_counts_no_more(state: ImportModel, event: EventModel)
    requires
        state.valid(),
        state.expects(event),
    ensures
        ({
            let next = state.next(event).0;
            tally_total(next.counts) + under_way(next.stage).len() <= tally_total(state.counts)
                + under_way(state.stage).len() + taken_by(state, event).len()
        }),
{
    match (state.stage, event) {
        (Stage::Pulling, Event::Chunk(Some(items))) => {
            let taken = admitted(items, state.room(), state.max);
            lemma_split_sizes(taken, Set::empty());
        },
        (Stage::Matching { items, rows }, Event::Matched(found)) => {
            lemma_split_sizes(
                adopted_all(items, pairs_map(rows), found),
                stored_ids(items, pairs_map(rows), found),
            );
        },
        (Stage::Writing { new, existing }, _) => {
            lemma_fitting_items_are_top_level(new, existing, state.max);
            law_tally_total_grows(state.counts, new + existing);
        },
        _ => {},
    }
}

proof fn lemma_run_takes_what_it_pulls(
    media_id: Seq<char>,
    max: nat,
    events: Seq<EventModel>,
    stream: Seq<CatalogItem>,
)
    requires
        max <= usize::MAX,
        in_turn(begun(media_id, max), events),
        drawn_from(events, stream),
    ensures
        ({
            let start = begun(media_id, max);
            let end = after(start, events);
            let pulled = pulled_in(events);
            &&& pulled.is_prefix_of(stream)
            &&& end.pulled == pulled.len()
            &&& tally_total(end.counts) + under_way(end.stage).len() <= pulled.len()
            &&& taken_in(start, events) == limited_all(pulled.filter(stands_alone()), max)
            &&& is_closed(end.stage) ==> pulled.len() == max || pulled == stream
        }),
    decreases events.len(),
{
    let start = begun(media_id, max);
    let alone = stands_alone();
    if events.len() == 0 {
        reveal(Seq::filter);
        assert(pulled_in(events).filter(alone) =~= Seq::<CatalogItem>::empty());
        assert(taken_in(start, events) =~= limited_all(pulled_in(events).filter(alone), max));
    } else {
        let front = events.drop_last();
        let event = events.last();
        lemma_run_takes_what_it_pulls(media_id, max, front, stream);
        law_run_stays_within_max(media_id, max, front);
        law_run_stays_within_max(media_id, max, events);
        let state = after(start, front);
        let so_far = pulled_in(front);
        let more = pulled_by(event);
        Seq::filter_distributes_over_add(so_far, more, alone);
        assert(limited_all(so_far.filter(alone) + more.filter(alone), max) =~= limited_all(
            so_far.filter(alone),
            max,
        ) + limited_all(more.filter(alone), max));
        lemma_step_counts_no_more(state, event);
        match (state.stage, event) {
            (Stage::Pulling, Event::Chunk(Some(items))) => {
                assert(items.len() <= state.room());
                assert(taken_by(state, event) == limited_all(items.filter(alone), max));
                lemma_admitted_fits(items, state.room(), max);
            },
            _ => {
                reveal(Seq::filter);
                assert(more =~= Seq::<CatalogItem>::empty());
                assert(limited_all(more.filter(alone), max) =~= Seq::<CatalogItem>::empty());
            },
        }
    }
}

/// A run without failures counts, of each kind, the items of that kind among the first `max` of the
/// stream, of the kinds that stand on their own.
pub proof fn law_run_counts_the_first_items(
    media_id: Seq<char>,
    max: nat,
    events: Seq<EventModel>,
    stream: Seq<CatalogItem>,
    kind: MediaKind,
)
    requires
        max <= usize::MAX,
        in_turn(begun(media_id, max), events),
        forall|i: int| 0 <= i < events.len() ==> !is_failure(#[trigger] events[i]),
        drawn_from(events, stream),
        is_closed(after(begun(media_id, max), events).stage),
    ensures
        pulled_in(events) == first_items(stream, max),
        tally_of(after(begun(media_id, max), events).counts, kind) == kinds_among(
            first_items(stream, max).filter(stands_alone()),
            kind,
        ),
{
    let pulled = pulled_in(events);
    lemma_run_takes_what_it_pulls(media_id, max, events, stream);
    law_run_stays_within_max(media_id, max, events);
    law_run_counts_what_it_takes(media_id, max, events, kind);
    assert(pulled =~= first_items(stream, max));
    let own = pulled.filter(stands_alone());
    lemma_same_kinds(limited_all(own, max), own, kind);
}

// ---------------------------------------------------------------------------------------------
// Members

/// What an import of catalog `media_id` does next, after `events`.
pub open spec fn action_after(media_id: Seq<char>, max: nat, events: Seq<EventModel>) -> ActionModel {
    if events.len() == 0 {
        ImportModel::start(media_id, max).pull().1
    } else {
        after(begun(media_id, max), events.drop_last()).next(events.last()).1
    }
}

/// Whether one of `rows` is for `id`.
pub open spec fn has_row(rows: Seq<RelationRow>, id: u128) -> bool {
    exists|k: int| 0 <= k < rows.len() && (#[trigger] rows[k]).item_id == id
}

/// The members of the collection once `action` is carried out, where `media` are the ids that a
/// media row is stored under: a membership is written for no other id.
pub open spec fn carried_out(action: ActionModel, members: Set<u128>, media: Set<u128>) -> Set<u128> {
    match action {
        Action::Write { relations, .. } => Set::new(
            |id: u128|
                members.contains(id) || media.contains(id) && has_row(relations.flatten(), id),
        ),
        Action::RemoveStale(ids) => Set::new(
            |id: u128| members.contains(id) && !ids.flatten().contains(id),
        ),
        _ => members,
    }
}

/// The members of the collection after `events`, of which each reports that the action before it
/// was carried out; `before` are the members at the start.
pub open spec fn members_after(
    media_id: Seq<char>,
    max: nat,
    events: Seq<EventModel>,
    before: Set<u128>,
    media: Set<u128>,
) -> Set<u128>
    decreases events.len(),
{
    if events.len() == 0 {
        before
    } else {
        let front = events.drop_last();
        carried_out(
            action_after(media_id, max, front),
            members_after(media_id, max, front, before, media),
            media,
        )
    }
}

/// Whether `events` report no failure, metadata passes that replace only ids that they were given,
/// and the members that the collection has.
pub open spec fn faithful(
    media_id: Seq<char>,
    max: nat,
    events: Seq<EventModel>,
    before: Set<u128>,
    media: Set<u128>,
) -> bool
    decreases events.len(),
{
    events.len() == 0 || {
        let front = events.drop_last();
        &&& faithful(media_id, max, front, before, media)
        &&& !is_failure(events.last())
        &&& match events.last() {
            Event::Members(ids) => ids.to_set() == members_after(
                media_id,
                max,
                events,
                before,
                media,
            ),
            Event::Metadata { remap: Some(pairs), .. } => match after(
                begun(media_id, max),
                front,
            ).stage {
                Stage::Fetching { new, .. } => forall|k: int|
                    0 <= k < pairs.len() ==> item_ids(new).contains((#[trigger] pairs[k]).0),
                _ => true,
            },
            _ => true,
        }
    }
}

/// Whether every seen id that has a media row is one of `ids`.
spec fn all_seen(imported: Seq<u128>, media: Set<u128>, ids: Set<u128>) -> bool {
    forall|k: int|
        0 <= k < imported.len() && media.contains(#[trigger] imported[k]) ==> ids.contains(
            imported[k],
        )
}

/// What holds between the seen ids and `members`, the members once what is under way is carried
/// out, stage by stage.
spec fn in_step(
    state: ImportModel,
    members: Set<u128>,
    before: Set<u128>,
    media: Set<u128>,
) -> bool {
    &&& members.subset_of(media)
    &&& state.imported.len() == 0 ==> members == before
    &&& match state.stage {
        Stage::Fetching { weights, .. } => all_seen(
            state.imported,
            media,
            Set::new(
                |id: u128|
                    members.contains(id) || exists|w: int|
                        0 <= w < weights.len() && (#[trigger] weights[w]).id == id,
            ),
        ),
        Stage::Comparing => state.imported.len() > 0 && all_seen(state.imported, media, members),
        Stage::Removing => state.imported.len() > 0 && members == seen_media(state, media),
        Stage::Finished => state.imported.len() > 0 ==> members == seen_media(state, media),
        Stage::Failed => true,
        _ => all_seen(state.imported, media, members),
    }
}

/// The ids that were seen and that a media row is stored under.
pub open spec fn seen_media(state: ImportModel, media: Set<u128>) -> Set<u128> {
    Set::new(|id: u128| state.imported.contains(id) && media.contains(id))
}

proof fn lemma_placing_keeps_step(
    state: ImportModel,
    placed: Seq<CatalogItem>,
    stored: Set<u128>,
    members: Set<u128>,
    before: Set<u128>,
    media: Set<u128>,
)
    requires
        members.subset_of(media),
        state.imported.len() == 0 ==> members == before,
        all_seen(state.imported, media, members),
    ensures
        in_step(state.place(placed, stored).0, members, before, media),
{
    let next = state.place(placed, stored).0;
    let weights = weights_from(placed, state.position);
    let known = Set::new(
        |id: u128|
            members.contains(id) || exists|w: int|
                0 <= w < weights.len() && (#[trigger] weights[w]).id == id,
    );
    assert forall|k: int|
        0 <= k < next.imported.len() && media.contains(
            #[trigger] next.imported[k],
        ) implies known.contains(next.imported[k]) by {
        if k < state.imported.len() {
            assert(next.imported[k] == state.imported[k]);
        } else {
            let w = k - state.imported.len();
            assert(weights[w].id == next.imported[k]);
        }
    }
}

proof fn lemma_writing_keeps_step(
    state: ImportModel,
    new: Seq<CatalogItem>,
    pairs: Seq<(u128, u128)>,
    tags: usize,
    members: Set<u128>,
    before: Set<u128>,
    media: Set<u128>,
)
    requires
        state.valid(),
        state.collection_id != NIL,
        state.stage matches Stage::Fetching { new: n, .. } && n == new,
        forall|k: int| 0 <= k < pairs.len() ==> item_ids(new).contains((#[trigger] pairs[k]).0),
        in_step(state, members, before, media),
    ensures
        ({
            let (next, action) = state.next(Event::Metadata { remap: Some(pairs), tags });
            in_step(next, carried_out(action, members, media), before, media)
        }),
{
    let weights = state.stage->weights;
    let (next, action) = state.next(Event::Metadata { remap: Some(pairs), tags });
    let map = pairs_map(pairs);
    let rows = relation_rows(state.collection_id, remapped_weights(map, weights));
    law_batches_lose_nothing(rows, RELATION_CHUNK as int);
    assert(action->relations.flatten() == rows);
    let done = carried_out(action, members, media);
    assert forall|k: int|
        0 <= k < next.imported.len() && media.contains(
            #[trigger] next.imported[k],
        ) implies done.contains(next.imported[k]) by {
        let id = state.imported[k];
        assert(next.imported[k] == remapped(map, id));
        if exists|w: int| 0 <= w < weights.len() && (#[trigger] weights[w]).id == id {
            let w = choose|w: int| 0 <= w < weights.len() && (#[trigger] weights[w]).id == id;
            assert(rows[w].item_id == next.imported[k]);
            assert(has_row(rows, next.imported[k]));
        } else {
            lemma_pairs_map_domain(pairs, id);
            if map.dom().contains(id) {
                let p = choose|p: int| 0 <= p < pairs.len() && (#[trigger] pairs[p]).0 == id;
                assert(item_ids(new).contains(pairs[p].0));
                let n = choose|n: int| 0 <= n < item_ids(new).len() && item_ids(new)[n] == id;
                assert(weighed(new[n], weights));
                assert(false);
            }
        }
    }
    if next.imported.len() == 0 {
        assert forall|id: u128| !has_row(rows, id) by {
            if has_row(rows, id) {
                let k = choose|k: int| 0 <= k < rows.len() && (#[trigger] rows[k]).item_id == id;
                assert(state.imported.contains(weights[k].id));
            }
        }
        assert(done =~= members);
    }
}

proof fn lemma_comparing_keeps_step(
    state: ImportModel,
    ids: Seq<u128>,
    members: Set<u128>,
    before: Set<u128>,
    media: Set<u128>,
)
    requires
        state.stage is Comparing,
        in_step(state, members, before, media),
        ids.to_set() == members,
    ensures
        ({
            let (next, action) = state.next(Event::Members(ids));
            in_step(next, carried_out(action, members, media), before, media)
        }),
{
    let (next, action) = state.next(Event::Members(ids));
    let pred = not_imported(state.imported);
    let stale = ids.filter(pred);
    law_batches_lose_nothing(stale, STALE_CHUNK as int);
    let done = carried_out(action, members, media);
    let wanted = seen_media(state, media);
    assert forall|id: u128| done.contains(id) <==> wanted.contains(id) by {
        assert(ids.to_set().contains(id) <==> ids.contains(id));
        if stale.contains(id) {
            let k = choose|k: int| 0 <= k < stale.len() && stale[k] == id;
            ids.lemma_filter_pred(pred, k);
        }
        if ids.contains(id) && !state.imported.contains(id) {
            let k = choose|k: int| 0 <= k < ids.len() && ids[k] == id;
            ids.lemma_filter_contains(pred, k);
            assert(stale.contains(id));
        }
        if wanted.contains(id) {
            let k = choose|k: int| 0 <= k < state.imported.len() && state.imported[k] == id;
            assert(members.contains(state.imported[k]));
        }
    }
    assert(done =~= wanted);
}

proof fn lemma_step_keeps_members(
    state: ImportModel,
    event: EventModel,
    members: Set<u128>,
    before: Set<u128>,
    media: Set<u128>,
)
    requires
        state.valid(),
        state.collection_id != NIL,
        state.expects(event),
        !is_failure(event),
        in_step(state, members, before, media),
        match event {
            Event::Members(ids) => ids.to_set() == members,
            Event::Metadata { remap: Some(pairs), .. } => match state.stage {
                Stage::Fetching { new, .. } => forall|k: int|
                    0 <= k < pairs.len() ==> item_ids(new).contains((#[trigger] pairs[k]).0),
                _ => true,
            },
            _ => true,
        },
    ensures
        in_step(
            state.next(event).0,
            carried_out(state.next(event).1, members, media),
            before,
            media,
        ),
{
    match (state.stage, event) {
        (Stage::Pulling, Event::Chunk(Some(items))) => {
            let got = ImportModel { pulled: state.pulled + items.len(), ..state };
            let taken = admitted(items, got.room(), got.max);
            lemma_placing_keeps_step(got, taken, Set::empty(), members, before, media);
        },
        (Stage::Matching { items, rows }, Event::Matched(found)) => {
            lemma_placing_keeps_step(
                state,
                adopted_all(items, pairs_map(rows), found),
                stored_ids(items, pairs_map(rows), found),
                members,
                before,
                media,
            );
        },
        (Stage::Fetching { new, .. }, Event::Metadata { remap: Some(pairs), tags }) => {
            lemma_writing_keeps_step(state, new, pairs, tags, members, before, media);
        },
        (Stage::Comparing, Event::Members(ids)) => {
            lemma_comparing_keeps_step(state, ids, members, before, media);
        },
        _ => {},
    }
}

proof fn lemma_run_keeps_members(
    media_id: Seq<char>,
    max: nat,
    events: Seq<EventModel>,
    before: Set<u128>,
    media: Set<u128>,
)
    requires
        max <= usize::MAX,
        catalog_collection(media_id) != NIL,
        before.subset_of(media),
        in_turn(begun(media_id, max), events),
        faithful(media_id, max, events, before, media),
    ensures
        in_step(
            after(begun(media_id, max), events),
            carried_out(
                action_after(media_id, max, events),
                members_after(media_id, max, events, before, media),
                media,
            ),
            before,
            media,
        ),
    decreases events.len(),
{
    if events.len() > 0 {
        let front = events.drop_last();
        lemma_run_keeps_members(media_id, max, front, before, media);
        law_run_stays_within_max(media_id, max, front);
        lemma_step_keeps_members(
            after(begun(media_id, max), front),
            events.last(),
            members_after(media_id, max, events, before, media),
            before,
            media,
        );
    }
}

/// At the end of a run that saw something, where nothing failed and no metadata pass replaced an id
/// that it was not given, the members of the collection are exactly the seen ids that a media row
/// is stored under; after a run that saw nothing they are those that the collection had before.
pub proof fn law_members_left_are_the_seen_ones(
    media_id: Seq<char>,
    max: nat,
    events: Seq<EventModel>,
    before: Set<u128>,
    media: Set<u128>,
)
    requires
        max <= usize::MAX,
        catalog_collection(media_id) != NIL,
        before.subset_of(media),
        in_turn(begun(media_id, max), events),
        faithful(media_id, max, events, before, media),
        after(begun(media_id, max), events).stage is Finished,
    ensures
        members_after(media_id, max, events, before, media) == if after(
            begun(media_id, max),
            events,
        ).imported.len() > 0 {
            seen_media(after(begun(media_id, max), events), media)
        } else {
            before
        },
{
    lemma_run_keeps_members(media_id, max, events, before, media);
}

} // verus!

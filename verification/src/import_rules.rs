//! The rules by which a catalog import treats one chunk of items.

use std::collections::{HashMap, HashSet};

use vstd::prelude::*;

use crate::ids::{id_bytes, new_v5, relation_of};
use crate::lookup::{index_ids, index_pairs, pairs_map};
use crate::media::{is_top_level, top_level, CatalogItem, MediaKind};

verus! {

broadcast use vstd::std_specs::hash::group_hash_axioms;

/// A catalog position for a media id.
#[derive(Clone, Copy, Debug, PartialEq, Eq, Structural)]
pub struct Weight {
    pub id: u128,
    pub weight: i64,
}

/// A row that records the membership of an item in a catalog's collection.
#[derive(Clone, Copy, Debug, PartialEq, Eq, Structural)]
pub struct RelationRow {
    pub relation_id: u128,
    pub collection_id: u128,
    pub weight: i64,
    pub item_id: u128,
}

/// A row that gives a media the catalog's tag at index `tag`.
#[derive(Clone, Copy, Debug, PartialEq, Eq, Structural)]
pub struct TagRow {
    pub media_id: u128,
    pub tag: usize,
}

// ---------------------------------------------------------------------------------------------
// Which items are taken

/// The items of kinds that stand on their own.
pub open spec fn stands_alone() -> spec_fn(CatalogItem) -> bool {
    |item: CatalogItem| top_level(item.kind)
}

/// An item in an import of at most `max` items: of what a playlist holds, too, no more than that is
/// kept.
pub open spec fn limited(item: CatalogItem, max: nat) -> CatalogItem {
    if item.kind == MediaKind::Playlist && item.relations > max {
        CatalogItem { relations: max as usize, ..item }
    } else {
        item
    }
}

/// All items through `limited`.
pub open spec fn limited_all(items: Seq<CatalogItem>, max: nat) -> Seq<CatalogItem> {
    Seq::new(items.len(), |i: int| limited(items[i], max))
}

/// What an import of at most `max` items takes of a chunk when `room` more fit: the first `room` of
/// them, and of those the ones that stand on their own.
pub open spec fn admitted(items: Seq<CatalogItem>, room: int, max: nat) -> Seq<CatalogItem> {
    let fitting = if items.len() > room {
        items.take(room)
    } else {
        items
    };
    limited_all(fitting.filter(stands_alone()), max)
}

/// Whether an item may be under way in an import of at most `max` items.
pub open spec fn fits(item: CatalogItem, max: nat) -> bool {
    top_level(item.kind) && (item.kind == MediaKind::Playlist ==> item.relations <= max)
}

/// Whether all `items` may be under way in an import of at most `max` items.
pub open spec fn all_fit(items: Seq<CatalogItem>, max: nat) -> bool {
    forall|i: int| 0 <= i < items.len() ==> fits(#[trigger] items[i], max)
}

fn limit_item(item: CatalogItem, max: usize) -> (r: CatalogItem)
    ensures
        r == limited(item, max as nat),
{
    if item.kind == MediaKind::Playlist && item.relations > max {
        CatalogItem { relations: max, ..item }
    } else {
        item
    }
}

/// What an import takes is no more than there is room for, and fits.
pub proof fn lemma_admitted_fits(items: Seq<CatalogItem>, room: int, max: nat)
    requires
        0 <= room,
        max <= usize::MAX,
    ensures
        admitted(items, room, max).len() <= room,
        admitted(items, room, max).len() <= items.len(),
        all_fit(admitted(items, room, max), max),
{
    let fitting = if items.len() > room {
        items.take(room)
    } else {
        items
    };
    let pred = stands_alone();
    let taken = admitted(items, room, max);
    fitting.lemma_filter_len(pred);
    assert forall|k: int| 0 <= k < taken.len() implies fits(#[trigger] taken[k], max) by {
        fitting.lemma_filter_pred(pred, k);
    }
}

/// What an import of at most `max` items takes of a chunk when `room` more fit.
pub fn take_admitted(items: &Vec<CatalogItem>, room: usize, max: usize) -> (r: Vec<CatalogItem>)
    ensures
        r@ == admitted(items@, room as int, max as nat),
{
    let n: usize = if items.len() > room {
        room
    } else {
        items.len()
    };
    let ghost fitting = items@.take(n as int);
    let ghost pred = stands_alone();
    let mut out: Vec<CatalogItem> = Vec::new();
    let mut i: usize = 0;
    proof {
        reveal(Seq::filter);
        assert(fitting.take(0).filter(pred) =~= Seq::<CatalogItem>::empty());
        assert(out@ =~= limited_all(fitting.take(0).filter(pred), max as nat));
    }
    while i < n
        invariant
            i <= n <= items.len(),
            fitting == items@.take(n as int),
            pred == stands_alone(),
            out@ == limited_all(fitting.take(i as int).filter(pred), max as nat),
        decreases n - i,
    {
        proof {
            assert(fitting.take(i + 1) =~= fitting.take(i as int).push(fitting[i as int]));
            fitting.take(i as int).lemma_filter_push(fitting[i as int], pred);
        }
        if is_top_level(items[i].kind) {
            out.push(limit_item(items[i], max));
        }
        i = i + 1;
        assert(out@ =~= limited_all(fitting.take(i as int).filter(pred), max as nat));
    }
    proof {
        assert(fitting.take(n as int) =~= fitting);
        if items@.len() <= room {
            assert(fitting =~= items@);
        }
    }
    out
}

// ---------------------------------------------------------------------------------------------
// Which items are stored already

/// Whether items of this kind are identified by their own id alone.
pub open spec fn provider_identified(kind: MediaKind) -> bool {
    kind == MediaKind::TvChannel || kind == MediaKind::Playlist
}

/// Whether an item has to be looked for by its external ids: its own id is no stored row, and its
/// kind has external ids.
pub open spec fn needs_external_match(item: CatalogItem, stored: Map<u128, MediaKind>) -> bool {
    !provider_identified(item.kind) && !stored.dom().contains(item.id)
}

/// The id of the row that already holds `item`. A channel or a playlist is held only by a row of
/// its own id and kind; any other item by a row of its own id, else by the row `found` through its
/// external ids.
pub open spec fn known_as(
    item: CatalogItem,
    stored: Map<u128, MediaKind>,
    found: Option<u128>,
) -> Option<u128> {
    if provider_identified(item.kind) {
        if stored.dom().contains(item.id) && stored[item.id] == item.kind {
            Some(item.id)
        } else {
            None
        }
    } else if stored.dom().contains(item.id) {
        Some(item.id)
    } else {
        found
    }
}

/// `item` under the id of the row that already holds it.
pub open spec fn adopted(
    item: CatalogItem,
    stored: Map<u128, MediaKind>,
    found: Option<u128>,
) -> CatalogItem {
    match known_as(item, stored, found) {
        Some(id) => CatalogItem { id, ..item },
        None => item,
    }
}

/// All items under their stored ids.
pub open spec fn adopted_all(
    items: Seq<CatalogItem>,
    stored: Map<u128, MediaKind>,
    found: Seq<Option<u128>>,
) -> Seq<CatalogItem> {
    Seq::new(items.len(), |i: int| adopted(items[i], stored, found[i]))
}

/// The ids that some item was found under.
pub open spec fn stored_ids(
    items: Seq<CatalogItem>,
    stored: Map<u128, MediaKind>,
    found: Seq<Option<u128>>,
) -> Set<u128> {
    Set::new(
        |id: u128|
            exists|i: int|
                0 <= i < items.len() && #[trigger] known_as(items[i], stored, found[i]) == Some(id),
    )
}

/// Which items have to be looked for by their external ids.
pub open spec fn external_matches(items: Seq<CatalogItem>, stored: Map<u128, MediaKind>) -> Seq<
    bool,
> {
    Seq::new(items.len(), |i: int| needs_external_match(items[i], stored))
}

/// Which items have to be looked for by their external ids.
pub fn wanted_matches(items: &Vec<CatalogItem>, rows: &Vec<(u128, MediaKind)>) -> (r: Vec<bool>)
    ensures
        r@ == external_matches(items@, pairs_map(rows@)),
{
    let stored: HashMap<u128, MediaKind> = index_pairs(rows);
    let mut out: Vec<bool> = Vec::new();
    let mut i: usize = 0;
    while i < items.len()
        invariant
            i <= items.len(),
            stored@ == pairs_map(rows@),
            out@ == external_matches(items@, pairs_map(rows@)).take(i as int),
        decreases items.len() - i,
    {
        let item: CatalogItem = items[i];
        let own: bool = item.kind == MediaKind::TvChannel || item.kind == MediaKind::Playlist;
        out.push(!own && !stored.contains_key(&item.id));
        i = i + 1;
        assert(out@ =~= external_matches(items@, pairs_map(rows@)).take(i as int));
    }
    assert(out@ =~= external_matches(items@, pairs_map(rows@)));
    out
}

fn stored_as(item: CatalogItem, stored: &HashMap<u128, MediaKind>, found: Option<u128>) -> (r:
    Option<u128>)
    ensures
        r == known_as(item, stored@, found),
{
    match stored.get(&item.id) {
        Some(kind) => if item.kind == MediaKind::TvChannel || item.kind == MediaKind::Playlist {
            if *kind == item.kind {
                Some(item.id)
            } else {
                None
            }
        } else {
            Some(item.id)
        },
        None => if item.kind == MediaKind::TvChannel || item.kind == MediaKind::Playlist {
            None
        } else {
            found
        },
    }
}

/// Puts every item under the id of the row that already holds it, and collects those ids.
pub fn adopt_stored(
    items: &Vec<CatalogItem>,
    rows: &Vec<(u128, MediaKind)>,
    found: &Vec<Option<u128>>,
) -> (r: (Vec<CatalogItem>, HashSet<u128>))
    requires
        found.len() == items.len(),
    ensures
        r.0@ == adopted_all(items@, pairs_map(rows@), found@),
        r.1@ == stored_ids(items@, pairs_map(rows@), found@),
{
    let stored: HashMap<u128, MediaKind> = index_pairs(rows);
    let ghost map = pairs_map(rows@);
    let mut out: Vec<CatalogItem> = Vec::new();
    let mut ids: HashSet<u128> = HashSet::new();
    let mut i: usize = 0;
    while i < items.len()
        invariant
            i <= items.len(),
            found.len() == items.len(),
            stored@ == map,
            out@ == adopted_all(items@, map, found@).take(i as int),
            forall|id: u128| #[trigger]
                ids@.contains(id) <==> exists|k: int|
                    0 <= k < i && #[trigger] known_as(items@[k], map, found@[k]) == Some(id),
        decreases items.len() - i,
    {
        let item: CatalogItem = items[i];
        let known: Option<u128> = stored_as(item, &stored, found[i]);
        let ghost before = ids@;
        match known {
            Some(id) => {
                out.push(CatalogItem { id, ..item });
                ids.insert(id);
            },
            None => {
                out.push(item);
            },
        }
        proof {
            assert(known == known_as(items@[i as int], map, found@[i as int]));
            assert forall|id: u128| #[trigger] ids@.contains(id) implies exists|k: int|
                0 <= k < i + 1 && #[trigger] known_as(items@[k], map, found@[k]) == Some(id) by {
                if before.contains(id) {
                    let k = choose|k: int|
                        0 <= k < i && #[trigger] known_as(items@[k], map, found@[k]) == Some(id);
                    assert(known_as(items@[k], map, found@[k]) == Some(id));
                } else {
                    assert(known_as(items@[i as int], map, found@[i as int]) == Some(id));
                }
            }
        }
        i = i + 1;
        assert(out@ =~= adopted_all(items@, map, found@).take(i as int));
    }
    assert(out@ =~= adopted_all(items@, map, found@));
    assert(ids@ =~= stored_ids(items@, map, found@));
    (out, ids)
}

// ---------------------------------------------------------------------------------------------
// Positions, new items and known items

/// The ids of `items`.
pub open spec fn item_ids(items: Seq<CatalogItem>) -> Seq<u128> {
    Seq::new(items.len(), |i: int| items[i].id)
}

/// The ids of `items`.
pub fn ids_of(items: &Vec<CatalogItem>) -> (r: Vec<u128>)
    ensures
        r@ == item_ids(items@),
{
    let mut out: Vec<u128> = Vec::new();
    let mut i: usize = 0;
    while i < items.len()
        invariant
            i <= items.len(),
            out@ == item_ids(items@).take(i as int),
        decreases items.len() - i,
    {
        out.push(items[i].id);
        i = i + 1;
        assert(out@ =~= item_ids(items@).take(i as int));
    }
    assert(out@ =~= item_ids(items@));
    out
}

/// The catalog positions of `items`, counted on from `start`.
pub open spec fn weights_from(items: Seq<CatalogItem>, start: int) -> Seq<Weight> {
    Seq::new(items.len(), |i: int| Weight { id: items[i].id, weight: (start + i) as i64 })
}

/// Whether one of `weights` is the position of `item`.
pub open spec fn weighed(item: CatalogItem, weights: Seq<Weight>) -> bool {
    exists|k: int| 0 <= k < weights.len() && (#[trigger] weights[k]).id == item.id
}

/// Whether each of `items` has its position among `weights`.
pub open spec fn all_weighed(items: Seq<CatalogItem>, weights: Seq<Weight>) -> bool {
    forall|i: int| 0 <= i < items.len() ==> weighed(#[trigger] items[i], weights)
}

/// The catalog positions of `items`, counted on from `start`.
pub fn weigh(items: &Vec<CatalogItem>, start: i64) -> (r: Vec<Weight>)
    requires
        0 <= start,
        start + items.len() <= i64::MAX,
    ensures
        r@ == weights_from(items@, start as int),
{
    let mut out: Vec<Weight> = Vec::new();
    let mut i: usize = 0;
    while i < items.len()
        invariant
            i <= items.len(),
            0 <= start,
            start + items.len() <= i64::MAX,
            out@ == weights_from(items@, start as int).take(i as int),
        decreases items.len() - i,
    {
        out.push(Weight { id: items[i].id, weight: start + i as i64 });
        i = i + 1;
        assert(out@ =~= weights_from(items@, start as int).take(i as int));
    }
    assert(out@ =~= weights_from(items@, start as int));
    out
}

/// The items under none of the `stored` ids.
pub open spec fn is_new(stored: Set<u128>) -> spec_fn(CatalogItem) -> bool {
    |item: CatalogItem| !stored.contains(item.id)
}

/// The items under one of the `stored` ids.
pub open spec fn is_known(stored: Set<u128>) -> spec_fn(CatalogItem) -> bool {
    |item: CatalogItem| stored.contains(item.id)
}

/// Splits `items` into the new ones and the known ones, each in order.
pub fn split_known(items: &Vec<CatalogItem>, stored: &HashSet<u128>) -> (r: (
    Vec<CatalogItem>,
    Vec<CatalogItem>,
))
    ensures
        r.0@ == items@.filter(is_new(stored@)),
        r.1@ == items@.filter(is_known(stored@)),
{
    let ghost fresh = is_new(stored@);
    let ghost known = is_known(stored@);
    let mut a: Vec<CatalogItem> = Vec::new();
    let mut b: Vec<CatalogItem> = Vec::new();
    let mut i: usize = 0;
    proof {
        reveal(Seq::filter);
        assert(items@.take(0).filter(fresh) =~= Seq::<CatalogItem>::empty());
        assert(items@.take(0).filter(known) =~= Seq::<CatalogItem>::empty());
    }
    while i < items.len()
        invariant
            i <= items.len(),
            fresh == is_new(stored@),
            known == is_known(stored@),
            a@ == items@.take(i as int).filter(fresh),
            b@ == items@.take(i as int).filter(known),
        decreases items.len() - i,
    {
        proof {
            assert(items@.take(i + 1) =~= items@.take(i as int).push(items@[i as int]));
            items@.take(i as int).lemma_filter_push(items@[i as int], fresh);
            items@.take(i as int).lemma_filter_push(items@[i as int], known);
        }
        if stored.contains(&items[i].id) {
            b.push(items[i]);
        } else {
            a.push(items[i]);
        }
        i = i + 1;
    }
    assert(items@.take(i as int) =~= items@);
    (a, b)
}

/// The items of one kind.
pub open spec fn of_kind(kind: MediaKind) -> spec_fn(CatalogItem) -> bool {
    |item: CatalogItem| item.kind == kind
}

/// The items of one kind, in order.
pub fn select_kind(items: &Vec<CatalogItem>, kind: MediaKind) -> (r: Vec<CatalogItem>)
    ensures
        r@ == items@.filter(of_kind(kind)),
{
    let ghost pred = of_kind(kind);
    let mut out: Vec<CatalogItem> = Vec::new();
    let mut i: usize = 0;
    proof {
        reveal(Seq::filter);
        assert(items@.take(0).filter(pred) =~= Seq::<CatalogItem>::empty());
    }
    while i < items.len()
        invariant
            i <= items.len(),
            pred == of_kind(kind),
            out@ == items@.take(i as int).filter(pred),
        decreases items.len() - i,
    {
        proof {
            assert(items@.take(i + 1) =~= items@.take(i as int).push(items@[i as int]));
            items@.take(i as int).lemma_filter_push(items@[i as int], pred);
        }
        if items[i].kind == kind {
            out.push(items[i]);
        }
        i = i + 1;
    }
    assert(items@.take(i as int) =~= items@);
    out
}

// ---------------------------------------------------------------------------------------------
// Ids that the metadata pass replaced

/// The id that `id` was written under: what `remap` has for it, else `id` itself.
pub open spec fn remapped(remap: Map<u128, u128>, id: u128) -> u128 {
    if remap.dom().contains(id) {
        remap[id]
    } else {
        id
    }
}

/// Every id through `remapped`.
pub open spec fn remapped_ids(remap: Map<u128, u128>, ids: Seq<u128>) -> Seq<u128> {
    Seq::new(ids.len(), |i: int| remapped(remap, ids[i]))
}

/// Every position under the id that its item was written under.
pub open spec fn remapped_weights(remap: Map<u128, u128>, weights: Seq<Weight>) -> Seq<Weight> {
    Seq::new(
        weights.len(),
        |i: int| Weight { id: remapped(remap, weights[i].id), weight: weights[i].weight },
    )
}

fn remap_one(remap: &HashMap<u128, u128>, id: u128) -> (r: u128)
    ensures
        r == remapped(remap@, id),
{
    match remap.get(&id) {
        Some(to) => *to,
        None => id,
    }
}

/// Every id through the replacements in `remap`.
pub fn remap_ids(remap: &HashMap<u128, u128>, ids: &Vec<u128>) -> (r: Vec<u128>)
    ensures
        r@ == remapped_ids(remap@, ids@),
{
    let mut out: Vec<u128> = Vec::new();
    let mut i: usize = 0;
    while i < ids.len()
        invariant
            i <= ids.len(),
            out@ == remapped_ids(remap@, ids@).take(i as int),
        decreases ids.len() - i,
    {
        out.push(remap_one(remap, ids[i]));
        i = i + 1;
        assert(out@ =~= remapped_ids(remap@, ids@).take(i as int));
    }
    assert(out@ =~= remapped_ids(remap@, ids@));
    out
}

/// Every position under the id that its item was written under.
pub fn remap_weights(remap: &HashMap<u128, u128>, weights: &Vec<Weight>) -> (r: Vec<Weight>)
    ensures
        r@ == remapped_weights(remap@, weights@),
{
    let mut out: Vec<Weight> = Vec::new();
    let mut i: usize = 0;
    while i < weights.len()
        invariant
            i <= weights.len(),
            out@ == remapped_weights(remap@, weights@).take(i as int),
        decreases weights.len() - i,
    {
        out.push(Weight { id: remap_one(remap, weights[i].id), weight: weights[i].weight });
        i = i + 1;
        assert(out@ =~= remapped_weights(remap@, weights@).take(i as int));
    }
    assert(out@ =~= remapped_weights(remap@, weights@));
    out
}

// ---------------------------------------------------------------------------------------------
// Rows to write

/// The membership rows for `weights` in a collection.
pub open spec fn relation_rows(collection_id: u128, weights: Seq<Weight>) -> Seq<RelationRow> {
    Seq::new(
        weights.len(),
        |i: int|
            RelationRow {
                relation_id: relation_of(collection_id, weights[i].id),
                collection_id,
                weight: weights[i].weight,
                item_id: weights[i].id,
            },
    )
}

/// The membership rows for `weights` in a collection.
pub fn make_relation_rows(collection_id: u128, weights: &Vec<Weight>) -> (r: Vec<RelationRow>)
    ensures
        r@ == relation_rows(collection_id, weights@),
{
    let mut out: Vec<RelationRow> = Vec::new();
    let mut i: usize = 0;
    while i < weights.len()
        invariant
            i <= weights.len(),
            out@ == relation_rows(collection_id, weights@).take(i as int),
        decreases weights.len() - i,
    {
        let w: Weight = weights[i];
        let name: Vec<u8> = id_bytes(w.id);
        let relation_id: u128 = new_v5(collection_id, name.as_slice());
        out.push(
            RelationRow { relation_id, collection_id, weight: w.weight, item_id: w.id },
        );
        i = i + 1;
        assert(out@ =~= relation_rows(collection_id, weights@).take(i as int));
    }
    assert(out@ =~= relation_rows(collection_id, weights@));
    out
}

/// A row for each of `tags` tags of one item, under the id that the item was written under.
pub open spec fn item_tag_rows(remap: Map<u128, u128>, tags: nat) -> spec_fn(CatalogItem) -> Seq<
    TagRow,
> {
    |item: CatalogItem|
        Seq::new(tags, |t: int| TagRow { media_id: remapped(remap, item.id), tag: t as usize })
}

/// Every tag of the catalog for every item: the new ones first, then the known ones.
pub open spec fn tag_rows(
    remap: Map<u128, u128>,
    new: Seq<CatalogItem>,
    existing: Seq<CatalogItem>,
    tags: nat,
) -> Seq<TagRow> {
    (new + existing).flat_map(item_tag_rows(remap, tags))
}

fn push_tag_rows(
    out: &mut Vec<TagRow>,
    remap: &HashMap<u128, u128>,
    items: &Vec<CatalogItem>,
    tags: usize,
)
    ensures
        final(out)@ == old(out)@ + items@.flat_map(item_tag_rows(remap@, tags as nat)),
{
    let ghost start = out@;
    let ghost f = item_tag_rows(remap@, tags as nat);
    let mut i: usize = 0;
    assert(items@.take(0).flat_map(f) =~= Seq::<TagRow>::empty());
    assert(out@ =~= start + items@.take(0).flat_map(f));
    while i < items.len()
        invariant
            i <= items.len(),
            f == item_tag_rows(remap@, tags as nat),
            out@ == start + items@.take(i as int).flat_map(f),
        decreases items.len() - i,
    {
        let id: u128 = remap_one(remap, items[i].id);
        let ghost before = out@;
        let mut t: usize = 0;
        while t < tags
            invariant
                t <= tags,
                i < items.len(),
                id == remapped(remap@, items@[i as int].id),
                f == item_tag_rows(remap@, tags as nat),
                out@ == before + f(items@[i as int]).take(t as int),
            decreases tags - t,
        {
            out.push(TagRow { media_id: id, tag: t });
            t = t + 1;
            assert(out@ =~= before + f(items@[i as int]).take(t as int));
        }
        proof {
            assert(f(items@[i as int]).take(t as int) =~= f(items@[i as int]));
            items@.lemma_flat_map_take_append(f, i as int);
        }
        i = i + 1;
        assert(out@ =~= start + items@.take(i as int).flat_map(f));
    }
    assert(items@.take(i as int) =~= items@);
}

proof fn lemma_flat_map_concat<A, B>(a: Seq<A>, b: Seq<A>, f: spec_fn(A) -> Seq<B>)
    ensures
        (a + b).flat_map(f) == a.flat_map(f) + b.flat_map(f),
    decreases b.len(),
{
    if b.len() == 0 {
        assert(a + b =~= a);
        assert(b.flat_map(f) =~= Seq::<B>::empty());
    } else {
        let front = b.drop_last();
        lemma_flat_map_concat(a, front, f);
        (a + front).lemma_flat_map_push(f, b.last());
        front.lemma_flat_map_push(f, b.last());
        assert((a + front).push(b.last()) =~= a + b);
        assert(front.push(b.last()) =~= b);
        assert(a.flat_map(f) + (front.flat_map(f) + f(b.last())) =~= (a.flat_map(f)
            + front.flat_map(f)) + f(b.last()));
    }
}

/// Every tag of the catalog for every item: the new ones first, then the known ones.
pub fn make_tag_rows(
    remap: &HashMap<u128, u128>,
    new: &Vec<CatalogItem>,
    existing: &Vec<CatalogItem>,
    tags: usize,
) -> (r: Vec<TagRow>)
    ensures
        r@ == tag_rows(remap@, new@, existing@, tags as nat),
{
    let mut out: Vec<TagRow> = Vec::new();
    push_tag_rows(&mut out, remap, new, tags);
    push_tag_rows(&mut out, remap, existing, tags);
    proof {
        lemma_flat_map_concat(new@, existing@, item_tag_rows(remap@, tags as nat));
    }
    assert(out@ =~= tag_rows(remap@, new@, existing@, tags as nat));
    out
}

/// The ids that are not among `imported`.
pub open spec fn not_imported(imported: Seq<u128>) -> spec_fn(u128) -> bool {
    |id: u128| !imported.contains(id)
}

/// The members that this import did not see, in order.
pub fn stale_members(members: &Vec<u128>, imported: &Vec<u128>) -> (r: Vec<u128>)
    ensures
        r@ == members@.filter(not_imported(imported@)),
{
    let seen: HashSet<u128> = index_ids(imported);
    let ghost pred = not_imported(imported@);
    let mut out: Vec<u128> = Vec::new();
    let mut i: usize = 0;
    proof {
        reveal(Seq::filter);
        assert(members@.take(0).filter(pred) =~= Seq::<u128>::empty());
    }
    while i < members.len()
        invariant
            i <= members.len(),
            seen@ == imported@.to_set(),
            pred == not_imported(imported@),
            out@ == members@.take(i as int).filter(pred),
        decreases members.len() - i,
    {
        proof {
            assert(members@.take(i + 1) =~= members@.take(i as int).push(members@[i as int]));
            members@.take(i as int).lemma_filter_push(members@[i as int], pred);
        }
        if !seen.contains(&members[i]) {
            out.push(members[i]);
        }
        i = i + 1;
    }
    assert(members@.take(i as int) =~= members@);
    out
}

} // verus!

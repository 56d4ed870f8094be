//! Requests about shows: the live TV view, seasons, episodes and next up.

use std::collections::HashMap;

use vstd::prelude::*;
use vstd::string::*;
use vstd::utf8::encode_utf8;

use crate::ids::{new_v5, uuid_v5, NAMESPACE_OID};
use crate::lookup::{
    index_pairs, lemma_distinct_pairs_count, lemma_pairs_map_domain, pairs_map,
};
use crate::nextup::{Candidate, Episode};
use crate::query::{
    or_zero, BaseItemDtoQueryResult, GetItemsModel, GetItemsQuery, ItemSortBy, MediaType, SortOrder,
};
use crate::sequences::{
    first_where, law_stable_order_exists, lemma_first_where, precedes, sort_positions,
    stable_order, SortKey,
};

verus! {

broadcast use vstd::std_specs::hash::group_hash_axioms;

// ---------------------------------------------------------------------------------------------
// The live TV view

/// What a view shows.
#[derive(Clone, Copy, Debug, PartialEq, Eq, Structural)]
pub enum CollectionType {
    Livetv,
}

/// An item as clients see it.
pub struct BaseItemDto {
    pub id: u128,
    pub name: Option<String>,
    pub server_id: String,
    pub type_: MediaType,
    pub collection_type: Option<CollectionType>,
    pub is_folder: bool,
}

/// The id of the live TV view.
pub open spec fn livetv_id() -> u128 {
    uuid_v5(NAMESPACE_OID, encode_utf8("remux-livetv-view"@))
}

/// The id of the live TV view, the same on every server.
pub fn livetv_view_id() -> (r: u128)
    ensures
        r == livetv_id(),
{
    new_v5(NAMESPACE_OID, "remux-livetv-view".as_bytes())
}

/// The live TV view of a server: a folder.
pub fn livetv_view_item(server_id: String) -> (r: BaseItemDto)
    ensures
        r.id == livetv_id(),
        r.name is Some,
        r.name->0@ == "Live TV"@,
        r.server_id == server_id,
        r.type_ == MediaType::UserView,
        r.collection_type == Some(CollectionType::Livetv),
        r.is_folder,
{
    BaseItemDto {
        id: livetv_view_id(),
        name: Some("Live TV".to_owned()),
        server_id,
        type_: MediaType::UserView,
        collection_type: Some(CollectionType::Livetv),
        is_folder: true,
    }
}

// ---------------------------------------------------------------------------------------------
// Seasons and episodes

/// The request for the seasons of a show: sorted by number unless the client sorts.
pub open spec fn seasons_query(item_id: u128, q: GetItemsModel) -> GetItemsModel {
    let unsorted = q.sort_by is None;
    GetItemsModel {
        parent_id: Some(item_id),
        include_item_types: Some(seq![MediaType::Season]),
        sort_by: if unsorted {
            Some(seq![ItemSortBy::IndexNumber])
        } else {
            q.sort_by
        },
        sort_order: if unsorted {
            Some(seq![SortOrder::Ascending])
        } else {
            q.sort_order
        },
        ..q
    }
}

/// The request for the seasons of show `item_id`.
pub fn shows_seasons(item_id: u128, q: GetItemsQuery) -> (r: GetItemsQuery)
    ensures
        r@ == seasons_query(item_id, q@),
{
    let mut q: GetItemsQuery = q;
    q.parent_id = Some(item_id);
    let types: Vec<MediaType> = vec![MediaType::Season];
    assert(types@ =~= seq![MediaType::Season]);
    q.include_item_types = Some(types);
    if q.sort_by.is_none() {
        let by: Vec<ItemSortBy> = vec![ItemSortBy::IndexNumber];
        let order: Vec<SortOrder> = vec![SortOrder::Ascending];
        assert(by@ =~= seq![ItemSortBy::IndexNumber]);
        assert(order@ =~= seq![SortOrder::Ascending]);
        q.sort_by = Some(by);
        q.sort_order = Some(order);
    }
    q
}

/// The request for the episodes of a show: of the season alone where one is named, since clients
/// may name the season as the show; sorted by season and number unless the client sorts.
pub open spec fn episodes_query(item_id: u128, q: GetItemsModel) -> GetItemsModel {
    let unsorted = q.sort_by is None;
    GetItemsModel {
        series_id: if q.season_id is None {
            Some(item_id)
        } else {
            q.series_id
        },
        include_item_types: Some(seq![MediaType::Episode]),
        sort_by: if unsorted {
            Some(seq![ItemSortBy::ParentIndexNumber, ItemSortBy::IndexNumber])
        } else {
            q.sort_by
        },
        sort_order: if unsorted {
            Some(seq![SortOrder::Ascending])
        } else {
            q.sort_order
        },
        start_item_id: None,
        ..q
    }
}

/// A request for episodes. Where `locate` is given, the item named in it has to be found among the
/// results of the request in it first.
pub struct EpisodesRequest {
    pub query: GetItemsQuery,
    pub locate: Option<(u128, GetItemsQuery)>,
}

/// The request for the episodes of show `item_id`. A start item is located among all episodes,
/// unless the client says where to start by number.
pub fn shows_episodes(item_id: u128, q: GetItemsQuery) -> (r: EpisodesRequest)
    ensures
        r.query@ == episodes_query(item_id, q@),
        r.locate is Some <==> q@.start_item_id is Some && q@.start_index is None,
        r.locate is Some ==> (r.locate->0).0 == q@.start_item_id->0 && (r.locate->0).1@ == (
        GetItemsModel { limit: None, start_index: None, ..episodes_query(item_id, q@) }),
{
    let mut q: GetItemsQuery = q;
    if q.season_id.is_none() {
        q.series_id = Some(item_id);
    }
    let types: Vec<MediaType> = vec![MediaType::Episode];
    assert(types@ =~= seq![MediaType::Episode]);
    q.include_item_types = Some(types);
    if q.sort_by.is_none() {
        let by: Vec<ItemSortBy> = vec![ItemSortBy::ParentIndexNumber, ItemSortBy::IndexNumber];
        let order: Vec<SortOrder> = vec![SortOrder::Ascending];
        assert(by@ =~= seq![ItemSortBy::ParentIndexNumber, ItemSortBy::IndexNumber]);
        assert(order@ =~= seq![SortOrder::Ascending]);
        q.sort_by = Some(by);
        q.sort_order = Some(order);
    }
    let start: Option<u128> = q.start_item_id;
    q.start_item_id = None;
    let locate: Option<(u128, GetItemsQuery)> = match start {
        Some(id) => if q.start_index.is_none() {
            let mut all: GetItemsQuery = q.copy();
            all.limit = None;
            all.start_index = None;
            Some((id, all))
        } else {
            None
        },
        None => None,
    };
    EpisodesRequest { query: q, locate }
}

/// The positions of `id`.
pub open spec fn id_at(ids: Seq<u128>, id: u128) -> spec_fn(int) -> bool {
    |i: int| ids[i] == id
}

/// Starts a request at the first position of `start_id` among `ids`; where it is not among them the
/// request stays as it is.
pub fn start_at(q: GetItemsQuery, ids: &Vec<u128>, start_id: u128) -> (r: GetItemsQuery)
    requires
        ids.len() <= u32::MAX,
    ensures
        r@ == (match first_where(id_at(ids@, start_id), 0, ids.len() as int) {
            Some(i) => GetItemsModel { start_index: Some(i as u32), ..q@ },
            None => q@,
        }),
{
    let ghost p = id_at(ids@, start_id);
    let mut i: usize = 0;
    while i < ids.len()
        invariant
            i <= ids.len() <= u32::MAX,
            p == id_at(ids@, start_id),
            first_where(p, 0, ids.len() as int) == first_where(p, i as int, ids.len() as int),
        decreases ids.len() - i,
    {
        if ids[i] == start_id {
            assert(p(i as int));
            return GetItemsQuery { start_index: Some(i as u32), ..q };
        }
        assert(!p(i as int));
        i = i + 1;
    }
    q
}

// ---------------------------------------------------------------------------------------------
// Next up

/// How a request for next episodes is answered.
#[derive(Clone, Copy, Debug, PartialEq, Eq, Structural)]
pub enum NextUpRoute {
    /// With nothing: next episodes are shown among those to continue.
    Folded,
    /// With one episode for each series that the user is watching.
    All,
    /// With the next episode of this series.
    Series(u128),
}

/// How a request for next episodes is answered. A request for one series is always looked up; the
/// list of all series is empty where next episodes are shown among those to continue.
pub fn shows_nextup(series_id: Option<u128>, next_up_in_continue_watching: Option<bool>) -> (r:
    NextUpRoute)
    ensures
        r == match series_id {
            Some(id) => NextUpRoute::Series(id),
            None => if next_up_in_continue_watching == Some(true) {
                NextUpRoute::Folded
            } else {
                NextUpRoute::All
            },
        },
{
    match series_id {
        Some(id) => NextUpRoute::Series(id),
        None => match next_up_in_continue_watching {
            Some(true) => NextUpRoute::Folded,
            _ => NextUpRoute::All,
        },
    }
}

/// The answer to a request for one series: its next episode alone, or nothing.
pub fn next_in_series_result(next: Option<Episode>) -> (r: BaseItemDtoQueryResult<u128>)
    ensures
        match next {
            Some(e) => r.items@ == seq![e.id] && r.total_record_count == 1,
            None => r.items@ == Seq::<u128>::empty() && r.total_record_count == 0,
        },
        r.start_index == 0,
{
    match next {
        Some(e) => {
            let items: Vec<u128> = vec![e.id];
            assert(items@ =~= seq![e.id]);
            BaseItemDtoQueryResult { items, total_record_count: 1, start_index: 0 }
        },
        None => BaseItemDtoQueryResult::empty(None),
    }
}

/// The ids of candidates, each with its place in the list.
pub open spec fn places(candidates: Seq<Candidate>) -> Seq<(u128, usize)> {
    Seq::new(candidates.len(), |i: int| (candidates[i].episode.id, i as usize))
}

/// The ids of candidates.
pub open spec fn candidate_ids(candidates: Seq<Candidate>) -> Seq<u128> {
    Seq::new(candidates.len(), |i: int| candidates[i].episode.id)
}

fn place_pairs(candidates: &Vec<Candidate>) -> (r: Vec<(u128, usize)>)
    ensures
        r@ == places(candidates@),
{
    let mut pairs: Vec<(u128, usize)> = Vec::new();
    let mut i: usize = 0;
    while i < candidates.len()
        invariant
            i <= candidates.len(),
            pairs@ == places(candidates@).take(i as int),
        decreases candidates.len() - i,
    {
        pairs.push((candidates[i].episode.id, i));
        i = i + 1;
        assert(pairs@ =~= places(candidates@).take(i as int));
    }
    assert(pairs@ =~= places(candidates@));
    pairs
}

/// The request by which the candidates are turned into items: all of them, whatever page the client
/// asks for.
pub open spec fn candidates_query(q: GetItemsModel, candidates: Seq<Candidate>) -> GetItemsModel {
    GetItemsModel {
        ids: Some(candidate_ids(candidates)),
        include_item_types: Some(seq![MediaType::Episode]),
        strict_item_filters: true,
        start_index: None,
        limit: Some(pairs_map(places(candidates)).dom().len() as u32),
        ..q
    }
}

/// The request by which the candidates are turned into items.
pub fn nextup_items_query(q: GetItemsQuery, candidates: &Vec<Candidate>) -> (r: GetItemsQuery)
    requires
        candidates.len() <= u32::MAX,
    ensures
        r@ == candidates_query(q@, candidates@),
{
    let mut q: GetItemsQuery = q;
    let mut ids: Vec<u128> = Vec::new();
    let mut i: usize = 0;
    while i < candidates.len()
        invariant
            i <= candidates.len(),
            ids@ == candidate_ids(candidates@).take(i as int),
        decreases candidates.len() - i,
    {
        ids.push(candidates[i].episode.id);
        i = i + 1;
        assert(ids@ =~= candidate_ids(candidates@).take(i as int));
    }
    assert(ids@ =~= candidate_ids(candidates@));
    let order: HashMap<u128, usize> = index_pairs(&place_pairs(candidates));
    q.ids = Some(ids);
    let types: Vec<MediaType> = vec![MediaType::Episode];
    assert(types@ =~= seq![MediaType::Episode]);
    q.include_item_types = Some(types);
    q.strict_item_filters = true;
    q.start_index = None;
    q.limit = Some(order.len() as u32);
    q
}

/// The keys that put `items` in the order of the candidates.
pub open spec fn place_keys(candidates: Seq<Candidate>, items: Seq<u128>) -> Seq<SortKey> {
    Seq::new(
        items.len(),
        |i: int|
            SortKey { major: pairs_map(places(candidates))[items[i]] as i128, minor: 0 },
    )
}

/// `limit` items of `s` from `start` on, as far as there are any.
pub open spec fn page_slice<T>(s: Seq<T>, start: int, limit: int) -> Seq<T> {
    if start >= s.len() {
        Seq::empty()
    } else if s.len() - start <= limit {
        s.skip(start)
    } else {
        s.subrange(start, start + limit)
    }
}

/// A limit, or the largest one where there is none.
pub open spec fn or_unlimited(limit: Option<u32>) -> u32 {
    match limit {
        Some(n) => n,
        None => u32::MAX,
    }
}

/// The page of next episodes that a client asks for: the positions, among `items`, of the items on
/// it, in the order of the candidates, and the number of all items. Without candidates it is the
/// empty page, which starts at zero wherever the client asked it to start.
pub fn shows_nextup_all(
    candidates: &Vec<Candidate>,
    items: &Vec<u128>,
    start_index: Option<u32>,
    limit: Option<u32>,
) -> (r: BaseItemDtoQueryResult<usize>)
    requires
        items.len() <= i64::MAX,
        forall|i: int|
            0 <= i < items.len() ==> candidate_ids(candidates@).contains(#[trigger] items@[i]),
    ensures
        r.items@ == page_slice(
            stable_order(place_keys(candidates@, items@)),
            or_zero(start_index) as int,
            or_unlimited(limit) as int,
        ),
        r.total_record_count == items.len(),
        r.start_index == if candidates@.len() == 0 {
            0
        } else {
            or_zero(start_index)
        },
{
    let order: HashMap<u128, usize> = index_pairs(&place_pairs(candidates));
    let mut keys: Vec<SortKey> = Vec::new();
    let mut i: usize = 0;
    while i < items.len()
        invariant
            i <= items.len(),
            order@ == pairs_map(places(candidates@)),
            forall|i: int|
                0 <= i < items.len() ==> candidate_ids(candidates@).contains(
                    #[trigger] items@[i],
                ),
            keys@ == place_keys(candidates@, items@).take(i as int),
        decreases items.len() - i,
    {
        let id: u128 = items[i];
        proof {
            assert(candidate_ids(candidates@).contains(items@[i as int]));
            let k = choose|k: int|
                0 <= k < candidates@.len() && candidate_ids(candidates@)[k] == id;
            assert(places(candidates@)[k].0 == id);
            lemma_pairs_map_domain(places(candidates@), id);
        }
        let place: usize = match order.get(&id) {
            Some(p) => *p,
            None => 0,
        };
        keys.push(SortKey { major: place as i128, minor: 0 });
        i = i + 1;
        assert(keys@ =~= place_keys(candidates@, items@).take(i as int));
    }
    assert(keys@ =~= place_keys(candidates@, items@));
    let sorted: Vec<usize> = sort_positions(&keys);
    let start: usize = start_index.unwrap_or(0) as usize;
    let most: usize = match limit {
        Some(n) => n as usize,
        None => u32::MAX as usize,
    };
    let mut page: Vec<usize> = Vec::new();
    let mut k: usize = start;
    while k < sorted.len() && k - start < most
        invariant
            start <= k,
            k <= sorted.len() || k == start,
            k - start <= most,
            page@ == if start >= sorted.len() {
                Seq::empty()
            } else {
                sorted@.subrange(start as int, k as int)
            },
        decreases sorted.len() - k,
    {
        page.push(sorted[k]);
        k = k + 1;
        assert(page@ =~= sorted@.subrange(start as int, k as int));
    }
    proof {
        if start < sorted.len() {
            if sorted.len() - start <= most {
                assert(sorted@.subrange(start as int, k as int) =~= sorted@.skip(start as int));
            }
        }
    }
    BaseItemDtoQueryResult {
        items: page,
        total_record_count: items.len() as i64,
        start_index: if candidates.len() == 0 {
            0
        } else {
            start_index.unwrap_or(0)
        },
    }
}

// ---------------------------------------------------------------------------------------------
// Laws

/// The items of a page follow the order of the candidates.
pub proof fn law_page_follows_the_candidates(
    candidates: Seq<Candidate>,
    items: Seq<u128>,
    start: int,
    limit: int,
    i: int,
    j: int,
)
    requires
        items.len() <= usize::MAX,
        0 <= start,
        0 <= limit,
        0 <= i < j < page_slice(stable_order(place_keys(candidates, items)), start, limit).len(),
    ensures
        ({
            let page = page_slice(stable_order(place_keys(candidates, items)), start, limit);
            let order = pairs_map(places(candidates));
            &&& page[i] < items.len()
            &&& page[j] < items.len()
            &&& order[items[page[i] as int]] <= order[items[page[j] as int]]
        }),
{
    let keys = place_keys(candidates, items);
    let sorted = stable_order(keys);
    law_stable_order_exists(keys);
    let page = page_slice(sorted, start, limit);
    assert(page[i] == sorted[start + i] && page[j] == sorted[start + j]);
    assert(sorted[start + i] < keys.len() && sorted[start + j] < keys.len());
    assert(precedes(keys, sorted[start + i], sorted[start + j]));
}

/// Pages that follow each other leave nothing out and repeat nothing.
pub proof fn law_pages_join<T>(s: Seq<T>, start: int, first: int, second: int)
    requires
        0 <= start,
        0 <= first,
        0 <= second,
    ensures
        page_slice(s, start, first) + page_slice(s, start + first, second) == page_slice(
            s,
            start,
            first + second,
        ),
{
    assert(page_slice(s, start, first) + page_slice(s, start + first, second) =~= page_slice(
        s,
        start,
        first + second,
    ));
}

/// Where the candidates are different episodes, the request for their items asks for as many items
/// as there are candidates.
pub proof fn law_every_candidate_is_asked_for(q: GetItemsModel, candidates: Seq<Candidate>)
    requires
        candidates.len() <= u32::MAX,
        candidate_ids(candidates).no_duplicates(),
    ensures
        candidates_query(q, candidates).ids == Some(candidate_ids(candidates)),
        candidates_query(q, candidates).limit == Some(candidates.len() as u32),
{
    let pairs = places(candidates);
    assert forall|i: int, j: int| 0 <= i < j < pairs.len() implies pairs[i].0 != pairs[j].0 by {
        assert(candidate_ids(candidates)[i] != candidate_ids(candidates)[j]);
    }
    lemma_distinct_pairs_count(pairs);
}

/// The start item of a request for episodes is where the located request shows it first.
pub proof fn law_located_start_is_the_first(ids: Seq<u128>, start_id: u128)
    ensures
        match first_where(id_at(ids, start_id), 0, ids.len() as int) {
            Some(i) => 0 <= i < ids.len() && ids[i] == start_id && forall|k: int|
                0 <= k < i ==> #[trigger] ids[k] != start_id,
            None => !ids.contains(start_id),
        },
{
    let p = id_at(ids, start_id);
    lemma_first_where(p, 0, ids.len() as int);
    match first_where(p, 0, ids.len() as int) {
        Some(i) => {
            assert forall|k: int| 0 <= k < i implies #[trigger] ids[k] != start_id by {
                assert(!p(k));
            }
        },
        None => {
            assert forall|k: int| 0 <= k < ids.len() implies #[trigger] ids[k] != start_id by {
                assert(!p(k));
            }
        },
    }
}

} // verus!

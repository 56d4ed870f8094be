//! Requests for items, filters on stored media, and pages of results.

use vstd::prelude::*;
use vstd::string::*;

use crate::media::MediaKind;
use crate::sequences::{contents, copied};
use crate::text::characters;
use crate::time::Timestamp;

verus! {

/// The item types that requests are narrowed to.
#[derive(Clone, Copy, Debug, PartialEq, Eq, Structural)]
pub enum MediaType {
    Season,
    Episode,
    UserView,
}

/// What items are sorted by. `Other` stands for any further criterion that a client names; its
/// number finds the name again.
#[derive(Clone, Copy, Debug, PartialEq, Eq, Structural)]
pub enum ItemSortBy {
    IndexNumber,
    ParentIndexNumber,
    PremiereDate,
    Other(usize),
}

/// The direction of a sort.
#[derive(Clone, Copy, Debug, PartialEq, Eq, Structural)]
pub enum SortOrder {
    Ascending,
    Descending,
}

/// A request for items.
pub struct GetItemsQuery {
    pub user_id: Option<u128>,
    pub parent_id: Option<u128>,
    pub series_id: Option<u128>,
    pub season_id: Option<u128>,
    pub ids: Option<Vec<u128>>,
    pub include_item_types: Option<Vec<MediaType>>,
    pub sort_by: Option<Vec<ItemSortBy>>,
    pub sort_order: Option<Vec<SortOrder>>,
    pub start_index: Option<u32>,
    pub limit: Option<u32>,
    pub start_item_id: Option<u128>,
    pub strict_item_filters: bool,
    pub enable_total_record_count: Option<bool>,
    pub enable_resumable: Option<bool>,
    pub disable_first_episode: Option<bool>,
    pub next_up_date_cutoff: Option<String>,
}

/// What a request for items holds.
pub struct GetItemsModel {
    pub user_id: Option<u128>,
    pub parent_id: Option<u128>,
    pub series_id: Option<u128>,
    pub season_id: Option<u128>,
    pub ids: Option<Seq<u128>>,
    pub include_item_types: Option<Seq<MediaType>>,
    pub sort_by: Option<Seq<ItemSortBy>>,
    pub sort_order: Option<Seq<SortOrder>>,
    pub start_index: Option<u32>,
    pub limit: Option<u32>,
    pub start_item_id: Option<u128>,
    pub strict_item_filters: bool,
    pub enable_total_record_count: Option<bool>,
    pub enable_resumable: Option<bool>,
    pub disable_first_episode: Option<bool>,
    pub next_up_date_cutoff: Option<Seq<char>>,
}

impl View for GetItemsQuery {
    type V = GetItemsModel;

    open spec fn view(&self) -> GetItemsModel {
        GetItemsModel {
            user_id: self.user_id,
            parent_id: self.parent_id,
            series_id: self.series_id,
            season_id: self.season_id,
            ids: contents(self.ids),
            include_item_types: contents(self.include_item_types),
            sort_by: contents(self.sort_by),
            sort_order: contents(self.sort_order),
            start_index: self.start_index,
            limit: self.limit,
            start_item_id: self.start_item_id,
            strict_item_filters: self.strict_item_filters,
            enable_total_record_count: self.enable_total_record_count,
            enable_resumable: self.enable_resumable,
            disable_first_episode: self.disable_first_episode,
            next_up_date_cutoff: characters(self.next_up_date_cutoff),
        }
    }
}

fn copied_if_any<T: Copy>(v: &Option<Vec<T>>) -> (r: Option<Vec<T>>)
    ensures
        contents(r) == contents(*v),
{
    match v {
        Some(items) => Some(copied(items)),
        None => None,
    }
}

impl GetItemsQuery {
    /// A request that asks for nothing in particular.
    pub fn new() -> (r: GetItemsQuery)
        ensures
            r@ == (GetItemsModel {
                user_id: None,
                parent_id: None,
                series_id: None,
                season_id: None,
                ids: None,
                include_item_types: None,
                sort_by: None,
                sort_order: None,
                start_index: None,
                limit: None,
                start_item_id: None,
                strict_item_filters: false,
                enable_total_record_count: None,
                enable_resumable: None,
                disable_first_episode: None,
                next_up_date_cutoff: None,
            }),
    {
        GetItemsQuery {
            user_id: None,
            parent_id: None,
            series_id: None,
            season_id: None,
            ids: None,
            include_item_types: None,
            sort_by: None,
            sort_order: None,
            start_index: None,
            limit: None,
            start_item_id: None,
            strict_item_filters: false,
            enable_total_record_count: None,
            enable_resumable: None,
            disable_first_episode: None,
            next_up_date_cutoff: None,
        }
    }

    /// The same request again.
    pub fn copy(&self) -> (r: GetItemsQuery)
        ensures
            r@ == self@,
    {
        let next_up_date_cutoff: Option<String> = match &self.next_up_date_cutoff {
            Some(text) => Some(text.as_str().to_owned()),
            None => None,
        };
        GetItemsQuery {
            user_id: self.user_id,
            parent_id: self.parent_id,
            series_id: self.series_id,
            season_id: self.season_id,
            ids: copied_if_any(&self.ids),
            include_item_types: copied_if_any(&self.include_item_types),
            sort_by: copied_if_any(&self.sort_by),
            sort_order: copied_if_any(&self.sort_order),
            start_index: self.start_index,
            limit: self.limit,
            start_item_id: self.start_item_id,
            strict_item_filters: self.strict_item_filters,
            enable_total_record_count: self.enable_total_record_count,
            enable_resumable: self.enable_resumable,
            disable_first_episode: self.disable_first_episode,
            next_up_date_cutoff,
        }
    }
}

/// A filter on stored media.
pub struct MediaFilter {
    pub kind: Option<Vec<MediaKind>>,
    pub parent_id: Option<u128>,
    pub grandparent_id: Option<u128>,
    /// Where it is given, only episodes of these series pass, and none where it is empty.
    pub grandparent_ids: Option<Vec<u128>>,
    pub released_after: Option<Timestamp>,
    pub digital_released_before: Option<Timestamp>,
    pub limit: Option<u32>,
    pub offset: Option<u32>,
    pub include_user_state: bool,
    pub user_id: Option<u128>,
    pub sort_by: Vec<ItemSortBy>,
    pub sort_order: Vec<SortOrder>,
    pub total_count: bool,
    pub max_parental_rating: Option<i64>,
    pub blocked_tags: Option<Vec<String>>,
    pub allowed_tags: Option<Vec<String>>,
    /// Whether the filter rules of the user's policy apply.
    pub policy_filter: bool,
}

/// What a filter on stored media holds.
pub struct MediaFilterModel {
    pub kind: Option<Seq<MediaKind>>,
    pub parent_id: Option<u128>,
    pub grandparent_id: Option<u128>,
    pub grandparent_ids: Option<Seq<u128>>,
    pub released_after: Option<Timestamp>,
    pub digital_released_before: Option<Timestamp>,
    pub limit: Option<u32>,
    pub offset: Option<u32>,
    pub include_user_state: bool,
    pub user_id: Option<u128>,
    pub sort_by: Seq<ItemSortBy>,
    pub sort_order: Seq<SortOrder>,
    pub total_count: bool,
    pub max_parental_rating: Option<i64>,
    pub blocked_tags: Option<Seq<String>>,
    pub allowed_tags: Option<Seq<String>>,
    pub policy_filter: bool,
}

impl View for MediaFilter {
    type V = MediaFilterModel;

    open spec fn view(&self) -> MediaFilterModel {
        MediaFilterModel {
            kind: contents(self.kind),
            parent_id: self.parent_id,
            grandparent_id: self.grandparent_id,
            grandparent_ids: contents(self.grandparent_ids),
            released_after: self.released_after,
            digital_released_before: self.digital_released_before,
            limit: self.limit,
            offset: self.offset,
            include_user_state: self.include_user_state,
            user_id: self.user_id,
            sort_by: self.sort_by@,
            sort_order: self.sort_order@,
            total_count: self.total_count,
            max_parental_rating: self.max_parental_rating,
            blocked_tags: contents(self.blocked_tags),
            allowed_tags: contents(self.allowed_tags),
            policy_filter: self.policy_filter,
        }
    }
}

/// A page of results, and how many there are in all.
pub struct BaseItemDtoQueryResult<T> {
    pub items: Vec<T>,
    pub total_record_count: i64,
    pub start_index: u32,
}

/// A number, or zero where there is none.
pub open spec fn or_zero(n: Option<u32>) -> u32 {
    match n {
        Some(x) => x,
        None => 0,
    }
}

impl<T> BaseItemDtoQueryResult<T> {
    /// A page without items.
    pub fn empty(start_index: Option<u32>) -> (r: BaseItemDtoQueryResult<T>)
        ensures
            r.items@ == Seq::<T>::empty(),
            r.total_record_count == 0,
            r.start_index == or_zero(start_index),
    {
        BaseItemDtoQueryResult {
            items: Vec::new(),
            total_record_count: 0,
            start_index: start_index.unwrap_or(0),
        }
    }

    /// A page of `items` out of `total_count`, from where the request asked to start.
    pub fn page(items: Vec<T>, total_count: usize, start_index: Option<u32>) -> (r:
        BaseItemDtoQueryResult<T>)
        requires
            total_count <= i64::MAX,
        ensures
            r.items@ == items@,
            r.total_record_count == total_count,
            r.start_index == or_zero(start_index),
    {
        BaseItemDtoQueryResult {
            items,
            total_record_count: total_count as i64,
            start_index: start_index.unwrap_or(0),
        }
    }
}

} // verus!

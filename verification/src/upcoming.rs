//! Requests for upcoming episodes and for recommended shows.

use vstd::prelude::*;
use vstd::string::*;

use crate::media::MediaKind;
use crate::query::{
    GetItemsModel, GetItemsQuery, ItemSortBy, MediaFilter, MediaFilterModel, SortOrder,
};
use crate::time::{Timestamp, DAY};

verus! {

// ---------------------------------------------------------------------------------------------
// Upcoming

/// What of a user's policy narrows a list.
pub struct UserPolicy {
    pub max_parental_rating: Option<i64>,
    pub blocked_tags: Vec<String>,
    pub allowed_tags: Vec<String>,
    /// Whether the policy has filter rules.
    pub has_filter_rules: bool,
}

/// What a parent narrows upcoming episodes to.
#[derive(Clone, Copy, Debug, PartialEq, Eq, Structural)]
pub enum ParentScope {
    /// Nothing: no parent was named, or it is a view that is not stored.
    Everything,
    /// The episodes of this series.
    Series(u128),
    /// The episodes of this season.
    Season(u128),
    /// The episodes of the series that this collection holds.
    Collection(u128),
}

/// What a stored parent, given by its id and kind, narrows upcoming episodes to.
pub open spec fn scope_of(parent: Option<(u128, MediaKind)>) -> ParentScope {
    match parent {
        None => ParentScope::Everything,
        Some((id, MediaKind::Series)) => ParentScope::Series(id),
        Some((id, MediaKind::Season)) => ParentScope::Season(id),
        Some((id, _)) => ParentScope::Collection(id),
    }
}

/// What a stored parent, given by its id and kind, narrows upcoming episodes to.
pub fn parent_scope(parent: Option<(u128, MediaKind)>) -> (r: ParentScope)
    ensures
        r == scope_of(parent),
{
    match parent {
        None => ParentScope::Everything,
        Some((id, MediaKind::Series)) => ParentScope::Series(id),
        Some((id, MediaKind::Season)) => ParentScope::Season(id),
        Some((id, _)) => ParentScope::Collection(id),
    }
}

/// A list, unless it is empty.
pub open spec fn unless_empty<T>(s: Seq<T>) -> Option<Seq<T>> {
    if s.len() == 0 {
        None
    } else {
        Some(s)
    }
}

fn some_unless_empty<T>(v: Vec<T>) -> (r: Option<Vec<T>>)
    ensures
        crate::sequences::contents(r) == unless_empty(v@),
{
    if v.len() == 0 {
        None
    } else {
        Some(v)
    }
}

/// The filter for upcoming episodes: those released from the start of today on, soonest first. When
/// an episode is available digitally plays no part. A collection narrows to the series it holds, and
/// to none where it holds none.
pub open spec fn upcoming_filter(
    q: GetItemsModel,
    session_user_id: u128,
    scope: ParentScope,
    members: Seq<u128>,
    policy: Option<UserPolicy>,
    now: Timestamp,
) -> MediaFilterModel {
    MediaFilterModel {
        kind: Some(seq![MediaKind::Episode]),
        parent_id: match scope {
            ParentScope::Season(id) => Some(id),
            _ => None,
        },
        grandparent_id: match scope {
            ParentScope::Series(id) => Some(id),
            _ => None,
        },
        grandparent_ids: match scope {
            ParentScope::Collection(_) => Some(members),
            _ => None,
        },
        released_after: Some(now.midnight()),
        digital_released_before: None,
        limit: q.limit,
        offset: q.start_index,
        include_user_state: true,
        user_id: Some(
            match q.user_id {
                Some(id) => id,
                None => session_user_id,
            },
        ),
        sort_by: seq![ItemSortBy::PremiereDate],
        sort_order: seq![SortOrder::Ascending],
        total_count: q.enable_total_record_count != Some(false),
        max_parental_rating: match policy {
            Some(p) => p.max_parental_rating,
            None => None,
        },
        blocked_tags: match policy {
            Some(p) => unless_empty(p.blocked_tags@),
            None => None,
        },
        allowed_tags: match policy {
            Some(p) => unless_empty(p.allowed_tags@),
            None => None,
        },
        policy_filter: match policy {
            Some(p) => p.has_filter_rules,
            None => false,
        },
    }
}

/// Whether an episode of a season and a series, where it has them, is among those that a filter
/// narrows to.
pub open spec fn in_scope(
    filter: MediaFilterModel,
    season_id: Option<u128>,
    series_id: Option<u128>,
) -> bool {
    &&& filter.parent_id is Some ==> season_id == filter.parent_id
    &&& filter.grandparent_id is Some ==> series_id == filter.grandparent_id
    &&& filter.grandparent_ids matches Some(ids) ==> series_id is Some && ids.contains(
        series_id->0,
    )
}

/// The filter for upcoming episodes. `members` are the series that the collection in `scope` holds.
pub fn shows_upcoming(
    q: &GetItemsQuery,
    session_user_id: u128,
    scope: ParentScope,
    members: Vec<u128>,
    policy: Option<UserPolicy>,
    now: Timestamp,
) -> (r: MediaFilter)
    requires
        now.secs >= i64::MIN + DAY,
    ensures
        r@ == upcoming_filter(q@, session_user_id, scope, members@, policy, now),
{
    let kind: Vec<MediaKind> = vec![MediaKind::Episode];
    let sort_by: Vec<ItemSortBy> = vec![ItemSortBy::PremiereDate];
    let sort_order: Vec<SortOrder> = vec![SortOrder::Ascending];
    assert(kind@ =~= seq![MediaKind::Episode]);
    assert(sort_by@ =~= seq![ItemSortBy::PremiereDate]);
    assert(sort_order@ =~= seq![SortOrder::Ascending]);
    let (parent_id, grandparent_id, grandparent_ids): (
        Option<u128>,
        Option<u128>,
        Option<Vec<u128>>,
    ) = match scope {
        ParentScope::Everything => (None, None, None),
        ParentScope::Series(id) => (None, Some(id), None),
        ParentScope::Season(id) => (Some(id), None, None),
        ParentScope::Collection(_) => (None, None, Some(members)),
    };
    let user_id: u128 = match q.user_id {
        Some(id) => id,
        None => session_user_id,
    };
    let total_count: bool = match q.enable_total_record_count {
        Some(b) => b,
        None => true,
    };
    let (max_parental_rating, blocked_tags, allowed_tags, policy_filter): (
        Option<i64>,
        Option<Vec<String>>,
        Option<Vec<String>>,
        bool,
    ) = match policy {
        Some(p) => (
            p.max_parental_rating,
            some_unless_empty(p.blocked_tags),
            some_unless_empty(p.allowed_tags),
            p.has_filter_rules,
        ),
        None => (None, None, None, false),
    };
    MediaFilter {
        kind: Some(kind),
        parent_id,
        grandparent_id,
        grandparent_ids,
        released_after: Some(now.start_of_day()),
        digital_released_before: None,
        limit: q.limit,
        offset: q.start_index,
        include_user_state: true,
        user_id: Some(user_id),
        sort_by,
        sort_order,
        total_count,
        max_parental_rating,
        blocked_tags,
        allowed_tags,
        policy_filter,
    }
}

/// An episode stored as released at midnight of any day from today on passes the release filter,
/// whatever the time of day; one of an earlier day does not.
pub proof fn law_todays_episodes_are_upcoming(
    q: GetItemsModel,
    session_user_id: u128,
    scope: ParentScope,
    members: Seq<u128>,
    policy: Option<UserPolicy>,
    now: Timestamp,
    days: int,
)
    requires
        i64::MIN + DAY <= now.secs,
        i64::MIN <= now.midnight().secs + days * DAY <= i64::MAX,
    ensures
        ({
            let released = Timestamp {
                secs: (now.midnight().secs + days * DAY) as i64,
                nanos: 0,
            };
            let filter = upcoming_filter(q, session_user_id, scope, members, policy, now);
            !released.earlier(filter.released_after->0) <==> days >= 0
        }),
{
}

/// A parent that is not stored narrows upcoming episodes no more than naming no parent does.
pub proof fn law_unknown_parents_narrow_nothing(
    q: GetItemsModel,
    session_user_id: u128,
    members: Seq<u128>,
    policy: Option<UserPolicy>,
    now: Timestamp,
)
    ensures
        ({
            let all = upcoming_filter(
                q,
                session_user_id,
                scope_of(None),
                members,
                policy,
                now,
            );
            all.parent_id is None && all.grandparent_id is None && all.grandparent_ids is None
        }),
{
}

/// A stored parent always narrows upcoming episodes: those that pass the filter are of the season, of
/// the series, or of a series that the collection holds. Nothing passes for a collection that holds
/// none.
pub proof fn law_stored_parents_narrow(
    q: GetItemsModel,
    session_user_id: u128,
    parent: (u128, MediaKind),
    members: Seq<u128>,
    policy: Option<UserPolicy>,
    now: Timestamp,
    season_id: Option<u128>,
    series_id: Option<u128>,
)
    requires
        in_scope(
            upcoming_filter(q, session_user_id, scope_of(Some(parent)), members, policy, now),
            season_id,
            series_id,
        ),
    ensures
        match parent.1 {
            MediaKind::Series => series_id == Some(parent.0),
            MediaKind::Season => season_id == Some(parent.0),
            _ => series_id is Some && members.contains(series_id->0),
        },
{
}

// ---------------------------------------------------------------------------------------------
// Recommendations

/// A client's request for recommended shows.
#[derive(Clone, Copy, Debug, PartialEq, Eq, Structural)]
pub struct GetShowRecommendationsQuery {
    pub user_id: Option<u128>,
    pub parent_id: Option<u128>,
    pub category_limit: Option<u32>,
    pub item_limit: Option<u32>,
}

impl Default for GetShowRecommendationsQuery {
    fn default() -> (r: GetShowRecommendationsQuery)
        ensures
            r == (GetShowRecommendationsQuery {
                user_id: None,
                parent_id: None,
                category_limit: None,
                item_limit: None,
            }),
    {
        GetShowRecommendationsQuery {
            user_id: None,
            parent_id: None,
            category_limit: None,
            item_limit: None,
        }
    }
}

/// The recommendations to build.
#[derive(Clone, Copy, Debug, PartialEq, Eq, Structural)]
pub struct RecommendationRequest {
    pub user_id: u128,
    pub parent_id: Option<u128>,
    pub kind: MediaKind,
    pub category_limit: usize,
    pub item_limit: u32,
}

/// The recommendations to build: of series, for the session's user unless another is named, five
/// categories of eight items unless the client says otherwise.
pub fn shows_recommendations(q: GetShowRecommendationsQuery, session_user_id: u128) -> (r:
    RecommendationRequest)
    ensures
        r.user_id == match q.user_id {
            Some(id) => id,
            None => session_user_id,
        },
        r.parent_id == q.parent_id,
        r.kind == MediaKind::Series,
        r.category_limit == match q.category_limit {
            Some(n) => n,
            None => 5,
        },
        r.item_limit == match q.item_limit {
            Some(n) => n,
            None => 8,
        },
{
    RecommendationRequest {
        user_id: match q.user_id {
            Some(id) => id,
            None => session_user_id,
        },
        parent_id: q.parent_id,
        kind: MediaKind::Series,
        category_limit: match q.category_limit {
            Some(n) => n as usize,
            None => 5,
        },
        item_limit: match q.item_limit {
            Some(n) => n,
            None => 8,
        },
    }
}

} // verus!

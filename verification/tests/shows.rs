use remux_library::ids::NAMESPACE_OID;
use remux_library::media::MediaKind;
use remux_library::nextup::{Candidate, Episode};
use remux_library::query::{
    BaseItemDtoQueryResult, GetItemsQuery, ItemSortBy, MediaType, SortOrder,
};
use remux_library::shows::{
    livetv_view_id, livetv_view_item, next_in_series_result, nextup_items_query, shows_episodes,
    shows_nextup, shows_nextup_all, shows_seasons, start_at, CollectionType, NextUpRoute,
};
use remux_library::time::Timestamp;
use remux_library::upcoming::{
    parent_scope, shows_recommendations, shows_upcoming, GetShowRecommendationsQuery, ParentScope,
    UserPolicy,
};

fn candidate(id: u128) -> Candidate {
    Candidate {
        episode: Episode {
            id,
            series_id: Some(1000 + id),
            parent_idx: None,
            idx: None,
            digital_released_at: None,
            released_at: None,
        },
        effective: Timestamp { secs: 0, nanos: 0 },
    }
}

#[test]
fn live_tv_view_is_a_folder() {
    assert_eq!(NAMESPACE_OID, uuid::Uuid::NAMESPACE_OID.as_u128());
    let expected = uuid::Uuid::new_v5(&uuid::Uuid::NAMESPACE_OID, b"remux-livetv-view").as_u128();
    assert_eq!(livetv_view_id(), expected);
    let view = livetv_view_item("server".to_string());
    assert_eq!(view.id, expected);
    assert_eq!(view.name.as_deref(), Some("Live TV"));
    assert_eq!(view.server_id, "server");
    assert_eq!(view.type_, MediaType::UserView);
    assert_eq!(view.collection_type, Some(CollectionType::Livetv));
    assert!(view.is_folder);
}

#[test]
fn seasons_are_sorted_by_number_unless_the_client_sorts() {
    let q = shows_seasons(7, GetItemsQuery::new());
    assert_eq!(q.parent_id, Some(7));
    assert_eq!(q.include_item_types, Some(vec![MediaType::Season]));
    assert_eq!(q.sort_by, Some(vec![ItemSortBy::IndexNumber]));
    assert_eq!(q.sort_order, Some(vec![SortOrder::Ascending]));

    let mut asked = GetItemsQuery::new();
    asked.sort_by = Some(vec![ItemSortBy::Other(3)]);
    asked.start_index = Some(4);
    let q = shows_seasons(7, asked);
    assert_eq!(q.sort_by, Some(vec![ItemSortBy::Other(3)]));
    assert_eq!(q.sort_order, None);
    assert_eq!(q.start_index, Some(4));
}

#[test]
fn episodes_are_narrowed_to_the_season_alone() {
    let r = shows_episodes(7, GetItemsQuery::new());
    assert_eq!(r.query.series_id, Some(7));
    assert_eq!(r.query.include_item_types, Some(vec![MediaType::Episode]));
    assert_eq!(
        r.query.sort_by,
        Some(vec![ItemSortBy::ParentIndexNumber, ItemSortBy::IndexNumber]),
    );
    assert_eq!(r.query.sort_order, Some(vec![SortOrder::Ascending]));
    assert!(r.locate.is_none());

    let mut asked = GetItemsQuery::new();
    asked.season_id = Some(9);
    let r = shows_episodes(9, asked);
    assert_eq!(r.query.series_id, None);
    assert_eq!(r.query.season_id, Some(9));
}

#[test]
fn start_item_is_located_among_all_episodes() {
    let mut asked = GetItemsQuery::new();
    asked.start_item_id = Some(30);
    asked.limit = Some(2);
    let r = shows_episodes(7, asked);
    assert_eq!(r.query.start_item_id, None);
    assert_eq!(r.query.limit, Some(2));
    let (id, all) = r.locate.unwrap();
    assert_eq!(id, 30);
    assert_eq!(all.limit, None);
    assert_eq!(all.start_index, None);
    assert_eq!(all.series_id, Some(7));
    assert_eq!(all.include_item_types, Some(vec![MediaType::Episode]));
    let q = start_at(r.query, &vec![10, 20, 30, 30], id);
    assert_eq!(q.start_index, Some(2));
    assert_eq!(q.limit, Some(2));
    let q = start_at(q.copy(), &vec![10, 20], 99);
    assert_eq!(q.start_index, Some(2));
}

#[test]
fn start_item_is_not_located_where_a_number_is_given() {
    let mut asked = GetItemsQuery::new();
    asked.start_item_id = Some(30);
    asked.start_index = Some(5);
    let r = shows_episodes(7, asked);
    assert!(r.locate.is_none());
    assert_eq!(r.query.start_item_id, None);
    assert_eq!(r.query.start_index, Some(5));
}

#[test]
fn next_up_is_folded_only_without_a_series() {
    assert_eq!(shows_nextup(None, None), NextUpRoute::All);
    assert_eq!(shows_nextup(None, Some(false)), NextUpRoute::All);
    assert_eq!(shows_nextup(None, Some(true)), NextUpRoute::Folded);
    assert_eq!(shows_nextup(Some(4), Some(true)), NextUpRoute::Series(4));
    assert_eq!(shows_nextup(Some(4), None), NextUpRoute::Series(4));
    let folded: BaseItemDtoQueryResult<u128> = BaseItemDtoQueryResult::empty(Some(6));
    assert!(folded.items.is_empty());
    assert_eq!(folded.total_record_count, 0);
    assert_eq!(folded.start_index, 6);
}

#[test]
fn next_of_one_series_is_a_page_of_one() {
    let r = next_in_series_result(Some(candidate(3).episode));
    assert_eq!((r.items, r.total_record_count, r.start_index), (vec![3], 1, 0));
    let r = next_in_series_result(None);
    assert_eq!((r.items.len(), r.total_record_count, r.start_index), (0, 0, 0));
}

#[test]
fn candidates_are_asked_for_all_at_once() {
    let mut asked = GetItemsQuery::new();
    asked.start_index = Some(1);
    asked.limit = Some(1);
    asked.user_id = Some(8);
    let q = nextup_items_query(asked, &vec![candidate(3), candidate(1), candidate(2)]);
    assert_eq!(q.ids, Some(vec![3, 1, 2]));
    assert_eq!(q.include_item_types, Some(vec![MediaType::Episode]));
    assert!(q.strict_item_filters);
    assert_eq!(q.start_index, None);
    assert_eq!(q.limit, Some(3));
    assert_eq!(q.user_id, Some(8));
}

#[test]
fn pages_of_next_up_follow_the_candidates() {
    let candidates = vec![candidate(3), candidate(1), candidate(2)];
    let items = vec![1, 2, 3];
    let all = shows_nextup_all(&candidates, &items, None, None);
    assert_eq!(all.items, vec![2, 0, 1]);
    assert_eq!(all.total_record_count, 3);
    assert_eq!(all.start_index, 0);
    let page = shows_nextup_all(&candidates, &items, Some(1), Some(1));
    assert_eq!(page.items, vec![0]);
    assert_eq!(page.total_record_count, 3);
    assert_eq!(page.start_index, 1);
    let past = shows_nextup_all(&candidates, &items, Some(5), Some(1));
    assert!(past.items.is_empty());
    assert_eq!(past.total_record_count, 3);
    let none = shows_nextup_all(&candidates, &items, None, Some(0));
    assert!(none.items.is_empty());
    let fewer = shows_nextup_all(&candidates, &vec![2, 3], None, Some(9));
    assert_eq!(fewer.items, vec![1, 0]);
    assert_eq!(fewer.total_record_count, 2);
    let hidden = shows_nextup_all(&candidates, &vec![], Some(5), None);
    assert_eq!((hidden.total_record_count, hidden.start_index), (0, 5));
}

#[test]
fn next_up_without_candidates_is_the_empty_page() {
    let page = shows_nextup_all(&vec![], &vec![], Some(5), Some(3));
    assert!(page.items.is_empty());
    assert_eq!((page.total_record_count, page.start_index), (0, 0));
}

#[test]
fn page_starts_where_the_request_does() {
    let r = BaseItemDtoQueryResult::page(vec![1u128, 2], 7, Some(3));
    assert_eq!((r.items, r.total_record_count, r.start_index), (vec![1, 2], 7, 3));
    let r = BaseItemDtoQueryResult::page(vec![1u128], 1, None);
    assert_eq!(r.start_index, 0);
}

#[test]
fn parents_narrow_upcoming_episodes_by_kind() {
    assert_eq!(parent_scope(None), ParentScope::Everything);
    assert_eq!(parent_scope(Some((1, MediaKind::Series))), ParentScope::Series(1));
    assert_eq!(parent_scope(Some((2, MediaKind::Season))), ParentScope::Season(2));
    assert_eq!(parent_scope(Some((3, MediaKind::Collection))), ParentScope::Collection(3));
    assert_eq!(parent_scope(Some((4, MediaKind::Movie))), ParentScope::Collection(4));
    let now = Timestamp { secs: 0, nanos: 0 };
    let q = GetItemsQuery::new();
    let f = shows_upcoming(&q, 9, ParentScope::Series(1), vec![5], None, now);
    assert_eq!((f.parent_id, f.grandparent_id, f.grandparent_ids), (None, Some(1), None));
    let f = shows_upcoming(&q, 9, ParentScope::Season(2), vec![5], None, now);
    assert_eq!((f.parent_id, f.grandparent_id, f.grandparent_ids), (Some(2), None, None));
    let f = shows_upcoming(&q, 9, ParentScope::Collection(3), vec![5, 6], None, now);
    assert_eq!((f.parent_id, f.grandparent_id, f.grandparent_ids), (None, None, Some(vec![5, 6])));
}

#[test]
fn unknown_parents_narrow_nothing() {
    let now = Timestamp { secs: 0, nanos: 0 };
    let q = GetItemsQuery::new();
    let f = shows_upcoming(&q, 9, parent_scope(None), vec![], None, now);
    assert_eq!((f.parent_id, f.grandparent_id, f.grandparent_ids), (None, None, None));
}

#[test]
fn collections_without_members_let_nothing_through() {
    let now = Timestamp { secs: 0, nanos: 0 };
    let scope = parent_scope(Some((3, MediaKind::Collection)));
    let f = shows_upcoming(&GetItemsQuery::new(), 9, scope, vec![], None, now);
    assert_eq!((f.parent_id, f.grandparent_id, f.grandparent_ids), (None, None, Some(vec![])));
}

#[test]
fn upcoming_starts_with_today() {
    let noon = chrono::NaiveDate::from_ymd_opt(2026, 6, 18)
        .unwrap()
        .and_hms_opt(12, 34, 56)
        .unwrap()
        .and_utc();
    let midnight = chrono::NaiveDate::from_ymd_opt(2026, 6, 18)
        .unwrap()
        .and_hms_opt(0, 0, 0)
        .unwrap()
        .and_utc();
    let now = Timestamp { secs: noon.timestamp(), nanos: 5 };
    let f = shows_upcoming(&GetItemsQuery::new(), 9, ParentScope::Everything, vec![], None, now);
    assert_eq!(f.released_after, Some(Timestamp { secs: midnight.timestamp(), nanos: 0 }));
    assert_eq!(f.digital_released_before, None);
    assert_eq!(f.kind, Some(vec![MediaKind::Episode]));
    assert_eq!(f.sort_by, vec![ItemSortBy::PremiereDate]);
    assert_eq!(f.sort_order, vec![SortOrder::Ascending]);
    assert_eq!(f.user_id, Some(9));
    assert!(f.include_user_state);
    assert!(f.total_count);
    let early = Timestamp { secs: -1, nanos: 0 };
    let f = shows_upcoming(&GetItemsQuery::new(), 9, ParentScope::Everything, vec![], None, early);
    assert_eq!(f.released_after, Some(Timestamp { secs: -86_400, nanos: 0 }));
}

#[test]
fn upcoming_respects_the_request_and_the_policy() {
    let mut q = GetItemsQuery::new();
    q.user_id = Some(5);
    q.limit = Some(10);
    q.start_index = Some(20);
    q.enable_total_record_count = Some(false);
    let policy = UserPolicy {
        max_parental_rating: Some(12),
        blocked_tags: vec!["gore".to_string()],
        allowed_tags: vec![],
        has_filter_rules: true,
    };
    let now = Timestamp { secs: 0, nanos: 0 };
    let f = shows_upcoming(&q, 9, ParentScope::Everything, vec![], Some(policy), now);
    assert_eq!(f.user_id, Some(5));
    assert_eq!((f.limit, f.offset), (Some(10), Some(20)));
    assert!(!f.total_count);
    assert_eq!(f.max_parental_rating, Some(12));
    assert_eq!(f.blocked_tags, Some(vec!["gore".to_string()]));
    assert_eq!(f.allowed_tags, None);
    assert!(f.policy_filter);
}

#[test]
fn recommendations_have_defaults() {
    let r = shows_recommendations(GetShowRecommendationsQuery::default(), 9);
    assert_eq!(r.user_id, 9);
    assert_eq!(r.parent_id, None);
    assert_eq!(r.kind, MediaKind::Series);
    assert_eq!(r.category_limit, 5);
    assert_eq!(r.item_limit, 8);
    let q = GetShowRecommendationsQuery {
        user_id: Some(1),
        parent_id: Some(2),
        category_limit: Some(0),
        item_limit: Some(4),
    };
    let r = shows_recommendations(q, 9);
    assert_eq!((r.user_id, r.parent_id, r.category_limit, r.item_limit), (1, Some(2), 0, 4));
}

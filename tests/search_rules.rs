use archive_catalog::search::{
    arrange_candidates, order_columns, paginate, plan_search, restore_order, total_count, SearchQuery, SortColumn,
    SortOrder, Sorting,
};

fn ids(n: i64) -> Vec<i64> {
    (1..=n).collect()
}

#[test]
fn pages_of_twenty_four() {
    let all = ids(50);
    assert_eq!(paginate(&all, 1), ids(24));
    assert_eq!(paginate(&all, 2), (25..=48).collect::<Vec<i64>>());
    assert_eq!(paginate(&all, 3), vec![49, 50]);
    assert!(paginate(&all, 4).is_empty());
    assert!(paginate(&all, usize::MAX).is_empty());
    assert!(paginate(&vec![], 1).is_empty());
}

#[test]
fn pages_concatenate_to_candidates() {
    let all: Vec<i64> = (0..97).map(|i| i * 3 + 1).collect();
    let mut joined = vec![];
    for p in 1..=5 {
        joined.extend(paginate(&all, p));
    }
    assert_eq!(joined, all);
}

#[test]
fn same_seed_same_order() {
    let seed = Some("abc".to_string());
    let a = arrange_candidates(Sorting::Random, &seed, ids(60));
    let b = arrange_candidates(Sorting::Random, &seed, ids(60));
    assert_eq!(a, b);
    let mut sorted = a.clone();
    sorted.sort();
    assert_eq!(sorted, ids(60));
}

#[test]
fn different_seed_different_order() {
    let a = arrange_candidates(Sorting::Random, &Some("abc".to_string()), ids(60));
    let b = arrange_candidates(Sorting::Random, &Some("abd".to_string()), ids(60));
    let c = arrange_candidates(Sorting::Random, &None, ids(60));
    assert_ne!(a, b);
    assert_ne!(a, c);
    assert_eq!(c, arrange_candidates(Sorting::Random, &Some(String::new()), ids(60)));
}

#[test]
fn non_random_sort_keeps_store_order() {
    assert_eq!(arrange_candidates(Sorting::Title, &Some("x".to_string()), vec![3, 1, 2]), vec![3, 1, 2]);
}

#[test]
fn sort_columns() {
    assert_eq!(order_columns(Sorting::Relevance, true), vec![SortColumn::Rank, SortColumn::CreatedAt]);
    assert_eq!(order_columns(Sorting::Relevance, false), vec![SortColumn::CreatedAt]);
    assert_eq!(order_columns(Sorting::Pages, true), vec![SortColumn::Pages, SortColumn::CreatedAt]);
    assert_eq!(order_columns(Sorting::ReleasedAt, true), vec![SortColumn::ReleasedAt]);
    assert_eq!(order_columns(Sorting::Title, false), vec![SortColumn::Title]);
    assert!(order_columns(Sorting::Random, true).is_empty());
}

#[test]
fn plan_of_a_query() {
    let q = SearchQuery {
        value: "foo artist:jane".to_string(),
        blacklist: vec!["t:9".to_string()],
        sort: Sorting::Relevance,
        order: SortOrder::Desc,
        page: 1,
        seed: None,
    };
    let p = plan_search(&q);
    assert_eq!(p.ranking, "foo:*");
    assert_eq!(p.filter.predicates.len(), 1);
    assert_eq!(p.filter.exclusions.len(), 1);
    assert_eq!(p.columns, vec![SortColumn::Rank, SortColumn::CreatedAt]);
    assert_eq!(p.order, SortOrder::Desc);
}

#[test]
fn restore_page_order() {
    assert_eq!(restore_order(&vec![5, 3, 9, 1], &vec![1, 9, 5]), vec![5, 9, 1]);
    assert!(restore_order(&vec![5, 3], &vec![]).is_empty());
}

#[test]
fn total_is_candidate_count() {
    assert_eq!(total_count(&ids(50)), 50);
    assert_eq!(total_count(&vec![]), 0);
}

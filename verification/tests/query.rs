use subscriptions_cache::query::{
    normalize, normalize_filter, normalize_limit, normalize_page, SubscriptionsQuery, DEFAULT_LIMIT,
    MAX_LIMIT,
};
use subscriptions_cache::sort::SortOrder;

fn raw(query: Option<&str>, page: Option<usize>, limit: Option<usize>, sort: Option<&str>) -> SubscriptionsQuery {
    SubscriptionsQuery {
        query: query.map(|s| s.to_string()),
        page,
        limit,
        sort: sort.map(|s| s.to_string()),
    }
}

#[test]
fn normalize_fills_in_defaults() {
    let q = normalize(&raw(None, None, None, None));
    assert_eq!(q.filter, "");
    assert_eq!(q.page, 1);
    assert_eq!(q.limit, 25);
    assert_eq!(q.sort, SortOrder::Desc);
}

#[test]
fn normalize_page_raises_zero_to_one() {
    assert_eq!(normalize_page(Some(0)), 1);
    assert_eq!(normalize_page(Some(1)), 1);
    assert_eq!(normalize_page(Some(7)), 7);
    assert_eq!(normalize_page(Some(usize::MAX)), usize::MAX);
    assert_eq!(normalize_page(None), 1);
}

#[test]
fn normalize_limit_clamps_to_one_and_hundred() {
    assert_eq!(normalize_limit(Some(0)), 1);
    assert_eq!(normalize_limit(Some(1)), 1);
    assert_eq!(normalize_limit(Some(2)), 2);
    assert_eq!(normalize_limit(Some(99)), 99);
    assert_eq!(normalize_limit(Some(100)), 100);
    assert_eq!(normalize_limit(Some(101)), 100);
    assert_eq!(normalize_limit(Some(usize::MAX)), 100);
    assert_eq!(normalize_limit(None), 25);
    assert_eq!(DEFAULT_LIMIT, 25);
    assert_eq!(MAX_LIMIT, 100);
}

#[test]
fn normalize_filter_trims_and_lowercases() {
    assert_eq!(normalize_filter(&Some("  HeLLo World \t\n".to_string())), "hello world");
    assert_eq!(normalize_filter(&Some("   ".to_string())), "");
    assert_eq!(normalize_filter(&Some("B".to_string())), "b");
    assert_eq!(normalize_filter(&None), "");
}

#[test]
fn normalize_filter_keeps_inner_whitespace() {
    assert_eq!(normalize_filter(&Some(" a  b ".to_string())), "a  b");
}

#[test]
fn normalize_filter_lowercases_beyond_ascii() {
    assert_eq!(normalize_filter(&Some("ÄÖÜ Музыка".to_string())), "äöü музыка");
}

#[test]
fn normalize_reads_every_field() {
    let q = normalize(&raw(Some(" Rust "), Some(3), Some(500), Some("asc")));
    assert_eq!(q.filter, "rust");
    assert_eq!(q.page, 3);
    assert_eq!(q.limit, 100);
    assert_eq!(q.sort, SortOrder::Asc);
}

#[test]
fn sort_order_is_ascending_only_for_the_exact_word() {
    assert_eq!(SortOrder::parse(Some("asc")), SortOrder::Asc);
    assert_eq!(SortOrder::parse(Some("desc")), SortOrder::Desc);
    assert_eq!(SortOrder::parse(Some("ASC")), SortOrder::Desc);
    assert_eq!(SortOrder::parse(Some(" asc")), SortOrder::Desc);
    assert_eq!(SortOrder::parse(Some("")), SortOrder::Desc);
    assert_eq!(SortOrder::parse(Some("ascending")), SortOrder::Desc);
    assert_eq!(SortOrder::parse(None), SortOrder::Desc);
}

#[test]
fn sort_order_words() {
    assert_eq!(SortOrder::Asc.as_str(), "asc");
    assert_eq!(SortOrder::Desc.as_str(), "desc");
}

#[test]
fn cache_key_holds_identity_filter_and_sort() {
    let q = normalize(&raw(Some("Cats"), Some(9), Some(5), Some("asc")));
    let key = q.cache_key("token-1");
    assert_eq!(key.identity, "token-1");
    assert_eq!(key.filter, "cats");
    assert_eq!(key.sort, SortOrder::Asc);
}

#[test]
fn cache_key_does_not_depend_on_page_or_limit() {
    let a = normalize(&raw(Some("cats"), Some(1), Some(5), None)).cache_key("t");
    let b = normalize(&raw(Some("cats"), Some(4), Some(50), None)).cache_key("t");
    assert_eq!(a, b);
    assert!(a.same_as(&b));
}

#[test]
fn normalized_queries_are_in_range() {
    assert!(normalize(&raw(None, None, None, None)).in_range());
    assert!(normalize(&raw(Some("x"), Some(0), Some(0), Some("asc"))).in_range());
    assert!(normalize(&raw(None, Some(usize::MAX), Some(usize::MAX), None)).in_range());
    let mut q = normalize(&raw(None, None, None, None));
    q.page = 0;
    assert!(!q.in_range());
    q.page = 1;
    q.limit = 0;
    assert!(!q.in_range());
    q.limit = 101;
    assert!(!q.in_range());
    q.limit = 100;
    assert!(q.in_range());
}

use subscriptions_cache::item::Item;
use subscriptions_cache::sort::{must_precede, sort_items, SortOrder};

fn counted(id: &str, count: i64) -> Item {
    Item::from_parts(Some(id), Some(id), Some("channel"), Some(count), serde_json::Value::Null)
}

fn ids(items: &Vec<Item>) -> Vec<String> {
    items.iter().map(|it| it.id.clone()).collect()
}

#[test]
fn descending_sort_keeps_ties_in_collection_order() {
    let all = vec![counted("A", 10), counted("B", 5), counted("C", 10)];
    let sorted = sort_items(all, SortOrder::Desc);
    assert_eq!(ids(&sorted), vec!["A", "C", "B"]);
}

#[test]
fn ascending_sort_keeps_ties_in_collection_order() {
    let all = vec![counted("A", 10), counted("B", 5), counted("C", 10)];
    let sorted = sort_items(all, SortOrder::Asc);
    assert_eq!(ids(&sorted), vec!["B", "A", "C"]);
}

#[test]
fn sort_of_nothing_and_of_one() {
    assert_eq!(sort_items(Vec::new(), SortOrder::Desc), Vec::<Item>::new());
    let one = sort_items(vec![counted("only", 1)], SortOrder::Asc);
    assert_eq!(ids(&one), vec!["only"]);
}

#[test]
fn sort_handles_negative_and_extreme_counts() {
    let all = vec![
        counted("zero", 0),
        counted("min", i64::MIN),
        counted("max", i64::MAX),
        counted("neg", -1),
    ];
    assert_eq!(ids(&sort_items(all.clone(), SortOrder::Asc)), vec!["min", "neg", "zero", "max"]);
    assert_eq!(ids(&sort_items(all, SortOrder::Desc)), vec!["max", "zero", "neg", "min"]);
}

#[test]
fn sort_is_stable_over_many_ties() {
    let mut all = Vec::new();
    for i in 0..60 {
        all.push(counted(&format!("n{}", i), (i % 4) as i64));
    }
    let sorted = sort_items(all.clone(), SortOrder::Desc);
    assert_eq!(sorted.len(), all.len());
    for w in sorted.windows(2) {
        assert!(w[0].total_item_count >= w[1].total_item_count);
    }
    for k in 0..4 {
        let before: Vec<String> =
            all.iter().filter(|it| it.total_item_count == k).map(|it| it.id.clone()).collect();
        let after: Vec<String> =
            sorted.iter().filter(|it| it.total_item_count == k).map(|it| it.id.clone()).collect();
        assert_eq!(before, after);
    }
}

#[test]
fn sort_agrees_with_the_stable_sort_of_std() {
    let mut all = Vec::new();
    let mut seed: u64 = 12345;
    for i in 0..200 {
        seed = seed.wrapping_mul(6364136223846793005).wrapping_add(1442695040888963407);
        all.push(counted(&format!("n{}", i), ((seed >> 33) % 17) as i64 - 8));
    }
    let mut asc = all.clone();
    asc.sort_by(|a, b| a.total_item_count.cmp(&b.total_item_count));
    assert_eq!(sort_items(all.clone(), SortOrder::Asc), asc);
    let mut desc = all.clone();
    desc.sort_by(|a, b| b.total_item_count.cmp(&a.total_item_count));
    assert_eq!(sort_items(all, SortOrder::Desc), desc);
}

#[test]
fn sorted_input_stays_as_it_is() {
    let all = vec![counted("a", 3), counted("b", 2), counted("c", 2), counted("d", 1)];
    assert_eq!(sort_items(all.clone(), SortOrder::Desc), all);
}

#[test]
fn must_precede_is_strict() {
    assert!(must_precede(1, 2, SortOrder::Asc));
    assert!(!must_precede(2, 2, SortOrder::Asc));
    assert!(!must_precede(3, 2, SortOrder::Asc));
    assert!(must_precede(3, 2, SortOrder::Desc));
    assert!(!must_precede(2, 2, SortOrder::Desc));
    assert!(!must_precede(1, 2, SortOrder::Desc));
}

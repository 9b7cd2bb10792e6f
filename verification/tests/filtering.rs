use subscriptions_cache::filter::{filter_items, item_matches};
use subscriptions_cache::item::Item;

fn titled(id: &str, title: &str, channel: &str) -> Item {
    Item::from_parts(Some(id), Some(title), Some(channel), Some(1), serde_json::Value::Null)
}

fn names(items: &Vec<Item>) -> Vec<String> {
    items.iter().map(|it| it.id.clone()).collect()
}

fn shelf() -> Vec<Item> {
    vec![
        titled("1", "Rust Talks", "Ferris"),
        titled("2", "Cooking", "The RUSTIC kitchen"),
        titled("3", "Gardening", "Green"),
        titled("4", "trust issues", "Drama"),
    ]
}

#[test]
fn filter_keeps_matches_of_title_or_channel_in_order() {
    assert_eq!(names(&filter_items(shelf(), "rust")), vec!["1", "2", "4"]);
}

#[test]
fn filter_ignores_the_case_of_the_item() {
    assert_eq!(names(&filter_items(shelf(), "green")), vec!["3"]);
    assert_eq!(names(&filter_items(shelf(), "rustic")), vec!["2"]);
}

#[test]
fn empty_filter_keeps_everything() {
    assert_eq!(filter_items(shelf(), ""), shelf());
}

#[test]
fn filter_without_match_keeps_nothing() {
    assert_eq!(filter_items(shelf(), "zebra"), Vec::<Item>::new());
    assert_eq!(filter_items(Vec::new(), "rust"), Vec::<Item>::new());
}

#[test]
fn filter_text_is_taken_as_it_is() {
    assert_eq!(filter_items(shelf(), "RUST"), Vec::<Item>::new());
}

#[test]
fn filter_matches_across_words() {
    assert_eq!(names(&filter_items(shelf(), "t t")), vec!["1"]);
    assert_eq!(names(&filter_items(shelf(), "c k")), vec!["2"]);
}

#[test]
fn item_matches_title_or_channel() {
    let it = titled("x", "Alpha", "Beta");
    assert!(item_matches(&it, "alp"));
    assert!(item_matches(&it, "eta"));
    assert!(item_matches(&it, ""));
    assert!(!item_matches(&it, "gamma"));
    assert!(!item_matches(&it, "alphabeta"));
}

#[test]
fn item_matches_beyond_ascii() {
    let it = titled("x", "МУЗЫКА", "Ärzte");
    assert!(item_matches(&it, "музыка"));
    assert!(item_matches(&it, "ärz"));
}

use raven_news::rss::RssItem;
use raven_news::store::RssStore;

fn item(source: &str, title: &str, ts: i64) -> RssItem {
    RssItem::new(
        source.to_string(),
        title.to_string(),
        "https://example.com/x".to_string(),
        None,
        Some(ts),
    )
}

#[test]
fn test_insert_if_new_is_idempotent() {
    let mut store = RssStore::new();
    let a = item("src", "title", 100);
    let b = item("src", "title", 100);
    assert!(store.insert_if_new(a));
    assert!(!store.insert_if_new(b));
    assert_eq!(store.count_total_rss_items(), 1);
}

#[test]
fn test_insert_distinct_items() {
    let mut store = RssStore::new();
    assert!(store.insert_if_new(item("src", "one", 100)));
    assert!(store.insert_if_new(item("src", "two", 100)));
    assert!(store.insert_if_new(item("src", "one", 101)));
    assert_eq!(store.count_total_rss_items(), 3);
}

#[test]
fn test_count_daily() {
    let mut store = RssStore::new();
    store.insert_if_new(item("src", "old", 100));
    store.insert_if_new(item("src", "recent-1", 2000));
    store.insert_if_new(item("src", "recent-2", 3000));
    assert_eq!(store.count_daily_rss_items(1000), 2);
    assert_eq!(store.count_daily_rss_items(0), 3);
    assert_eq!(store.count_daily_rss_items(4000), 0);
}

#[test]
fn test_count_by_source() {
    let mut store = RssStore::new();
    store.insert_if_new(item("bloomberg_wealth", "a", 1));
    store.insert_if_new(item("bloomberg_wealth", "b", 2));
    store.insert_if_new(item("coindesk", "c", 3));
    assert_eq!(store.count_source_rss_items("bloomberg_wealth"), 2);
    assert_eq!(store.count_source_rss_items("coindesk"), 1);
    assert_eq!(store.count_source_rss_items("reuters_financial"), 0);
}

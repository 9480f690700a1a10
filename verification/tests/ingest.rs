use raven_news::error::RssIngestionError;
use raven_news::ingest::{
    fetch_all_and_insert, scheduler_step, Dialect, FeedSource, SchedulerAction, SchedulerEvent,
    SchedulerState,
};
use raven_news::store::RssStore;

fn source(name: &str, dialect: Dialect, active: bool) -> FeedSource {
    FeedSource {
        name: name.to_string(),
        url: format!("https://feeds.example.com/{name}"),
        dialect,
        active,
    }
}

fn feed_with(titles: &[&str]) -> String {
    let mut xml = String::from("<rss><channel>");
    for t in titles {
        xml.push_str(&format!(
            "<item><title>{t}</title>\
             <link>https://example.com/{t}</link>\
             <pubDate>Wed, 02 Oct 2024 10:00:00 GMT</pubDate></item>"
        ));
    }
    xml.push_str("</channel></rss>");
    xml
}

#[test]
fn test_partial_feed_failure_writes_the_others() {
    let sources = vec![
        source("first", Dialect::Bloomberg, true),
        source("second", Dialect::Coindesk, true),
        source("third", Dialect::Reuters, true),
    ];
    let bodies = vec![
        Ok(feed_with(&["a1", "a2"])),
        Err("connection refused".to_string()),
        Ok(feed_with(&["c1"])),
    ];
    let mut store = RssStore::new();
    let r = fetch_all_and_insert(&sources, &bodies, 0, &mut store);

    // Items of the first and third sources were still written.
    assert_eq!(store.count_total_rss_items(), 3);
    assert_eq!(store.count_source_rss_items("first"), 2);
    assert_eq!(store.count_source_rss_items("third"), 1);

    // Exactly one failure, naming the second source, as a transport error.
    let fails = r.unwrap_err();
    assert_eq!(fails.len(), 1);
    assert_eq!(fails[0].source_name, "second");
    match &fails[0].error {
        RssIngestionError::Network(d) => assert_eq!(d, "connection refused"),
        _ => panic!("expected a transport failure"),
    }
}

#[test]
fn test_inactive_source_writes_nothing() {
    let sources = vec![source("dry_run", Dialect::Bloomberg, false)];
    let bodies = vec![Ok(feed_with(&["x1", "x2", "x3"]))];
    let mut store = RssStore::new();
    let r = fetch_all_and_insert(&sources, &bodies, 0, &mut store);

    // The feed parsed (no failure reported), yet nothing reached the store.
    assert!(r.is_ok());
    assert_eq!(store.count_total_rss_items(), 0);
}

#[test]
fn test_inactive_source_still_validates_markup() {
    let sources = vec![source("dry_run", Dialect::Bloomberg, false)];
    let bodies = vec![Ok("<rss><item><!-- broken".to_string())];
    let mut store = RssStore::new();
    let r = fetch_all_and_insert(&sources, &bodies, 0, &mut store);

    // Inactive sources are still fetched and parsed: a markup regression
    // surfaces as a parse failure even though nothing would be written.
    let fails = r.unwrap_err();
    assert_eq!(fails.len(), 1);
    assert_eq!(fails[0].source_name, "dry_run");
    assert!(matches!(fails[0].error, RssIngestionError::Parse(_)));
}

#[test]
fn test_items_carry_the_configured_source_name() {
    let sources = vec![
        source("bloomberg_wealth", Dialect::Bloomberg, true),
        source("bloomberg_markets", Dialect::Bloomberg, true),
    ];
    let bodies = vec![Ok(feed_with(&["same"])), Ok(feed_with(&["same"]))];
    let mut store = RssStore::new();
    let r = fetch_all_and_insert(&sources, &bodies, 0, &mut store);
    assert!(r.is_ok());

    // One identical entry from two distinct sources: the configured feed
    // name keys the identity, so both rows persist.
    assert_eq!(store.count_total_rss_items(), 2);
    assert_eq!(store.count_source_rss_items("bloomberg_wealth"), 1);
    assert_eq!(store.count_source_rss_items("bloomberg_markets"), 1);
    assert_eq!(store.count_source_rss_items("bloomberg"), 0);
}

#[test]
fn test_repolling_writes_nothing_new() {
    let sources = vec![source("feed", Dialect::Reuters, true)];
    let bodies = vec![Ok(feed_with(&["a", "b"]))];
    let mut store = RssStore::new();
    assert!(fetch_all_and_insert(&sources, &bodies, 0, &mut store).is_ok());
    assert_eq!(store.count_total_rss_items(), 2);

    // The same feed fetched again on the next tick: deduplication holds.
    assert!(fetch_all_and_insert(&sources, &bodies, 0, &mut store).is_ok());
    assert_eq!(store.count_total_rss_items(), 2);
}

#[test]
fn test_scheduler_transitions() {
    let (st, act) = scheduler_step(SchedulerState::Idle, SchedulerEvent::Tick);
    assert_eq!(st, SchedulerState::Idle);
    assert_eq!(act, SchedulerAction::RunIngestion);

    let (st, act) = scheduler_step(SchedulerState::Idle, SchedulerEvent::CancelSignal);
    assert_eq!(st, SchedulerState::Stopped);
    assert_eq!(act, SchedulerAction::NoAction);

    let (st, act) = scheduler_step(SchedulerState::Stopped, SchedulerEvent::Tick);
    assert_eq!(st, SchedulerState::Stopped);
    assert_eq!(act, SchedulerAction::NoAction);

    let (st, act) = scheduler_step(SchedulerState::Stopped, SchedulerEvent::CancelSignal);
    assert_eq!(st, SchedulerState::Stopped);
    assert_eq!(act, SchedulerAction::NoAction);
}

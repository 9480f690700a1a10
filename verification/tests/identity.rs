use raven_news::rss::RssItem;
use sha2::{Digest, Sha256};

#[test]
fn test_new_item_deterministic() {
    let ts: i64 = 1727863200;
    let a = RssItem::new(
        "bloomberg_wealth".to_string(),
        "Markets rally".to_string(),
        "https://example.com/a".to_string(),
        None,
        Some(ts),
    );
    let b = RssItem::new(
        "bloomberg_wealth".to_string(),
        "Markets rally".to_string(),
        "https://other-link.example.com/b".to_string(),
        Some("summary differs too".to_string()),
        Some(ts),
    );
    // Identity depends on (source, title, published_at) alone.
    assert_eq!(a.id, b.id);
}

#[test]
fn test_new_item_identity_varies_with_inputs() {
    let ts: i64 = 1727863200;
    let a = RssItem::new(
        "src".to_string(),
        "title one".to_string(),
        "l".to_string(),
        None,
        Some(ts),
    );
    let b = RssItem::new(
        "src".to_string(),
        "title two".to_string(),
        "l".to_string(),
        None,
        Some(ts),
    );
    let c = RssItem::new(
        "src".to_string(),
        "title one".to_string(),
        "l".to_string(),
        None,
        Some(ts + 1),
    );
    assert_ne!(a.id, b.id);
    assert_ne!(a.id, c.id);
}

#[test]
fn test_identity_matches_reference_digest() {
    // The identity must be the first 16 bytes (read little-endian) of the
    // SHA-256 digest of source, title and the RFC 3339 rendering of the
    // publish instant, concatenated. Recompute it from scratch.
    let ts: i64 = 1727863200;
    let source = "reuters_financial";
    let title = "Quarterly results";
    let rendered = chrono::DateTime::from_timestamp(ts, 0).unwrap().to_rfc3339();

    let mut hasher = Sha256::new();
    hasher.update(source.as_bytes());
    hasher.update(title.as_bytes());
    hasher.update(rendered.as_bytes());
    let digest = hasher.finalize();
    let mut head = [0u8; 16];
    head.copy_from_slice(&digest[..16]);
    let expected = u128::from_le_bytes(head);

    let item = RssItem::new(
        source.to_string(),
        title.to_string(),
        "https://example.com".to_string(),
        None,
        Some(ts),
    );
    assert_eq!(item.id, expected);
}

#[test]
fn test_new_item_keeps_fields() {
    let item = RssItem::new(
        "coindesk".to_string(),
        "Title".to_string(),
        "https://example.com/x".to_string(),
        Some("a summary".to_string()),
        Some(42),
    );
    assert_eq!(item.source, "coindesk");
    assert_eq!(item.title, "Title");
    assert_eq!(item.link, "https://example.com/x");
    assert_eq!(item.summary.as_deref(), Some("a summary"));
    assert_eq!(item.published_at, 42);
}

#[test]
fn test_new_item_without_date_takes_current_time() {
    let before = chrono::Utc::now().timestamp();
    let item = RssItem::new(
        "src".to_string(),
        "t".to_string(),
        "l".to_string(),
        None,
        None,
    );
    let after = chrono::Utc::now().timestamp();
    assert!(item.published_at >= before && item.published_at <= after);
}

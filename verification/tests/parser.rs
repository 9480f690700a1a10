use raven_news::error::RssParseError;
use raven_news::rss::bloomberg::BloombergRssParser;
use raven_news::rss::coindesk::CoindeskRssParser;
use raven_news::rss::reuters::ReutersRssParser;
use raven_news::xml::scan_entries;

const EPOCH_2024_10_02_10: i64 = 1727863200;

fn bloomberg_sample() -> String {
    "<?xml version=\"1.0\" encoding=\"UTF-8\"?>\n\
     <rss version=\"2.0\">\n\
     <channel>\n\
       <title>Bloomberg Wealth</title>\n\
       <link>https://feeds.example.com/wealth</link>\n\
       <item>\n\
         <title><![CDATA[Markets rally on rate cut]]></title>\n\
         <link>https://example.com/story-1</link>\n\
         <description><![CDATA[Stocks <b>rose</b> sharply.]]></description>\n\
         <creator>Jane Doe</creator>\n\
         <category>markets</category>\n\
         <category>rates</category>\n\
         <pubDate>Wed, 02 Oct 2024 10:00:00 GMT</pubDate>\n\
       </item>\n\
       <item>\n\
         <title>Plain title</title>\n\
         <link>https://example.com/story-2</link>\n\
         <pubDate>Wed, 02 Oct 2024 11:00:00 GMT</pubDate>\n\
       </item>\n\
     </channel>\n\
     </rss>\n"
        .to_string()
}

#[test]
fn test_bloomberg_parse_basic() {
    let parser = BloombergRssParser;
    let items = parser.parse(&bloomberg_sample()).expect("well-formed feed");
    assert_eq!(items.len(), 2);

    assert_eq!(items[0].source, "bloomberg");
    assert_eq!(items[0].title, "Markets rally on rate cut");
    assert_eq!(items[0].link, "https://example.com/story-1");
    assert_eq!(items[0].summary.as_deref(), Some("Stocks <b>rose</b> sharply."));
    assert_eq!(items[0].published_at, EPOCH_2024_10_02_10);

    assert_eq!(items[1].title, "Plain title");
    assert_eq!(items[1].summary, None);
    assert_eq!(items[1].published_at, EPOCH_2024_10_02_10 + 3600);
}

#[test]
fn test_parse_is_deterministic_per_entry() {
    let parser = BloombergRssParser;
    let a = parser.parse(&bloomberg_sample()).unwrap();
    let b = parser.parse(&bloomberg_sample()).unwrap();
    assert_eq!(a[0].id, b[0].id);
    assert_eq!(a[1].id, b[1].id);
}

#[test]
fn test_missing_link_drops_entry() {
    let xml = "<rss><channel><item>\
         <title>No link here</title>\
         <pubDate>Wed, 02 Oct 2024 10:00:00 GMT</pubDate>\
         </item><item>\
         <title>Complete</title>\
         <link>https://example.com/ok</link>\
         <pubDate>Wed, 02 Oct 2024 10:00:00 GMT</pubDate>\
         </item></channel></rss>";
    let items = BloombergRssParser.parse(xml).unwrap();
    assert_eq!(items.len(), 1);
    assert_eq!(items[0].title, "Complete");
}

#[test]
fn test_missing_title_drops_entry() {
    let xml = "<rss><item>\
         <link>https://example.com/no-title</link>\
         <pubDate>Wed, 02 Oct 2024 10:00:00 GMT</pubDate>\
         </item></rss>";
    let items = ReutersRssParser.parse(xml).unwrap();
    assert_eq!(items.len(), 0);
}

#[test]
fn test_missing_pubdate_drops_entry() {
    let xml = "<rss><item>\
         <title>t</title>\
         <link>https://example.com/no-date</link>\
         </item></rss>";
    let items = CoindeskRssParser.parse(xml).unwrap();
    assert_eq!(items.len(), 0);
}

#[test]
fn test_malformed_date_falls_back_to_given_now() {
    let xml = "<rss><item>\
         <title>t</title>\
         <link>https://example.com/x</link>\
         <pubDate>not a date at all</pubDate>\
         </item></rss>";
    let items = BloombergRssParser.parse_with_now(xml, 999_999).unwrap();
    assert_eq!(items.len(), 1);
    assert_eq!(items[0].published_at, 999_999);
}

#[test]
fn test_malformed_date_falls_back_to_current_time() {
    let xml = "<rss><item>\
         <title>t</title>\
         <link>https://example.com/x</link>\
         <pubDate>garbage</pubDate>\
         </item></rss>";
    let before = chrono::Utc::now().timestamp();
    let items = BloombergRssParser.parse(xml).unwrap();
    let after = chrono::Utc::now().timestamp();
    assert_eq!(items.len(), 1);
    assert!(items[0].published_at >= before && items[0].published_at <= after);
}

#[test]
fn test_unknown_tags_ignored() {
    let xml = "<rss><channel><junk>noise</junk><item>\
         <guid isPermaLink=\"false\">abc</guid>\
         <title>t</title>\
         <enclosure url=\"https://example.com/img.png\" />\
         <link>https://example.com/x</link>\
         <pubDate>Wed, 02 Oct 2024 10:00:00 GMT</pubDate>\
         <extra><nested>deep</nested></extra>\
         </item><unrelated/></channel></rss>";
    let items = BloombergRssParser.parse(xml).unwrap();
    assert_eq!(items.len(), 1);
    assert_eq!(items[0].title, "t");
}

#[test]
fn test_malformed_xml_is_structural_error() {
    let xml = "<rss><item><title>t</title><!-- never closed";
    let err = BloombergRssParser.parse(xml).unwrap_err();
    assert!(matches!(err, RssParseError::Xml(_)));
}

#[test]
fn test_unclosed_tag_is_structural_error() {
    let xml = "<rss><item attr=\"unclosed";
    let err = ReutersRssParser.parse(xml).unwrap_err();
    assert!(matches!(err, RssParseError::Xml(_)));
}

#[test]
fn test_empty_document_yields_no_items() {
    let items = CoindeskRssParser.parse("").unwrap();
    assert_eq!(items.len(), 0);
    let items = CoindeskRssParser.parse("<rss><channel></channel></rss>").unwrap();
    assert_eq!(items.len(), 0);
}

#[test]
fn test_source_labels_per_dialect() {
    let xml = "<rss><item>\
         <title>t</title>\
         <link>https://example.com/x</link>\
         <pubDate>Wed, 02 Oct 2024 10:00:00 GMT</pubDate>\
         </item></rss>";
    let items = CoindeskRssParser.parse(xml).unwrap();
    assert_eq!(items[0].source, "coindesk");
    let items = ReutersRssParser.parse(xml).unwrap();
    assert_eq!(items[0].source, "reuters");
}

#[test]
fn test_scan_entries_captures_categories_with_domain() {
    let xml = "<rss><item>\
         <title>t</title>\
         <link>https://example.com/x</link>\
         <pubDate>Wed, 02 Oct 2024 10:00:00 GMT</pubDate>\
         <category domain=\"https://example.com/tag\">bitcoin</category>\
         <category>ethereum</category>\
         <creator>Alice</creator>\
         <creator>Bob</creator>\
         </item></rss>";
    let entries = scan_entries(xml).unwrap();
    assert_eq!(entries.len(), 1);
    let e = &entries[0];
    assert_eq!(e.categories.len(), 2);
    assert_eq!(e.categories[0].domain.as_deref(), Some("https://example.com/tag"));
    assert_eq!(e.categories[0].text, "bitcoin");
    assert_eq!(e.categories[1].domain, None);
    assert_eq!(e.categories[1].text, "ethereum");
    assert_eq!(e.creators, vec!["Alice".to_string(), "Bob".to_string()]);
}

#[test]
fn test_scan_entries_cdata_spanning_end_marker() {
    // A CDATA interior may hold what looks like a closing tag.
    let xml = "<rss><item>\
         <title>t</title>\
         <link>https://example.com/x</link>\
         <description><![CDATA[uses </description> inside]]></description>\
         <pubDate>Wed, 02 Oct 2024 10:00:00 GMT</pubDate>\
         </item></rss>";
    let items = BloombergRssParser.parse(xml).unwrap();
    assert_eq!(items[0].summary.as_deref(), Some("uses </description> inside"));
}

#[test]
fn test_self_closing_item_ignored() {
    let xml = "<rss><item/>\
         <item>\
         <title>t</title>\
         <link>https://example.com/x</link>\
         <pubDate>Wed, 02 Oct 2024 10:00:00 GMT</pubDate>\
         </item></rss>";
    let items = BloombergRssParser.parse(xml).unwrap();
    assert_eq!(items.len(), 1);
}

#[test]
fn test_comments_declarations_and_pi_skipped() {
    let xml = "<?xml version=\"1.0\"?><!DOCTYPE rss>\
         <rss><!-- a comment with an <item> inside --><item>\
         <title>t</title>\
         <link>https://example.com/x</link>\
         <pubDate>Wed, 02 Oct 2024 10:00:00 GMT</pubDate>\
         </item></rss>";
    let items = BloombergRssParser.parse(xml).unwrap();
    assert_eq!(items.len(), 1);
}

#[test]
fn test_stray_item_end_ignored() {
    let xml = "<rss></item><item>\
         <title>t</title>\
         <link>https://example.com/x</link>\
         <pubDate>Wed, 02 Oct 2024 10:00:00 GMT</pubDate>\
         </item></rss>";
    let items = BloombergRssParser.parse(xml).unwrap();
    assert_eq!(items.len(), 1);
    assert_eq!(items[0].title, "t");
}

#[test]
fn test_nested_item_start_resets_fields() {
    let xml = "<rss><item><title>stale</title><item>\
         <title>t</title>\
         <link>https://example.com/x</link>\
         <pubDate>Wed, 02 Oct 2024 10:00:00 GMT</pubDate>\
         </item></rss>";
    let items = BloombergRssParser.parse(xml).unwrap();
    assert_eq!(items.len(), 1);
    assert_eq!(items[0].title, "t");
}

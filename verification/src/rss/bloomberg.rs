//! The first provider dialect: one creator field (the last one seen wins)
//! and flat categories captured as plain strings.

use vstd::prelude::*;
use crate::error::RssParseError;
use crate::rss::{self, RssItem, strip_cdata};
use crate::xml;

verus! {

/// One entry as this dialect reads it, before conversion to the canonical
/// item.
pub struct BloombergRssItem {
    pub title: String,
    pub link: String,
    pub summary_html: Option<String>,
    pub published_at: i64,
    pub creator: Option<String>,
    pub categories: Vec<String>,
}

impl BloombergRssItem {
    /// Converts to the canonical item under this dialect's source label;
    /// creator and categories do not survive the conversion.
    pub fn into_rss_item(self) -> (r: RssItem)
        ensures
            r@ == (rss::ItemModel {
                id: rss::spec_item_id("bloomberg"@, self.title@, self.published_at),
                source: "bloomberg"@,
                title: self.title@,
                link: self.link@,
                summary: match self.summary_html {
                    Some(s) => Some(s@),
                    None => None,
                },
                published_at: self.published_at,
            }),
    {
        let r = RssItem::new(
            String::from_str("bloomberg"),
            self.title,
            self.link,
            self.summary_html,
            Some(self.published_at),
        );
        proof {
            assert(r@ =~= (rss::ItemModel {
                id: rss::spec_item_id("bloomberg"@, self.title@, self.published_at),
                source: "bloomberg"@,
                title: self.title@,
                link: self.link@,
                summary: match self.summary_html {
                    Some(s) => Some(s@),
                    None => None,
                },
                published_at: self.published_at,
            }));
        }
        r
    }
}

/// The parser for this dialect.
pub struct BloombergRssParser;

impl BloombergRssParser {
    /// Parses a whole document, with `now_ts` as the publish-date fallback
    /// for entries whose date field does not parse as RFC 2822.
    pub fn parse_with_now(&self, xml_text: &str, now_ts: i64) -> (r: Result<
        Vec<RssItem>,
        RssParseError,
    >)
        ensures
            rss::parse_result_ok(xml_text@, "bloomberg"@, now_ts, r),
    {
        let entries = match xml::scan_entries(xml_text) {
            Ok(es) => es,
            Err(e) => {
                return Err(e);
            },
        };
        let ghost ms = rss::spec_parse_feed(xml_text@, "bloomberg"@, now_ts).unwrap();
        let mut items: Vec<RssItem> = Vec::new();
        let mut k: usize = 0;
        proof {
            assert(rss::items_view(items@) =~= ms.subrange(0, 0));
        }
        while k < entries.len()
            invariant
                k <= entries@.len(),
                xml::spec_parse_raw(xml_text@) == Some(xml::entries_view(entries@)),
                forall|j: int|
                    0 <= j < entries@.len() ==> xml::entry_complete(
                        #[trigger] xml::entries_view(entries@)[j],
                    ),
                ms == xml::entries_view(entries@).map_values(
                    |e: xml::EntryModel| rss::item_model_of_entry(e, "bloomberg"@, now_ts),
                ),
                rss::items_view(items@) == ms.subrange(0, k as int),
            decreases entries@.len() - k,
        {
            let ghost e_model = xml::entries_view(entries@)[k as int];
            proof {
                assert(xml::entry_complete(e_model));
            }
            let title = match &entries[k].title {
                Some(t) => strip_cdata(t.as_str()),
                None => vstd::pervasive::unreached(),
            };
            let link = match &entries[k].link {
                Some(t) => t.clone(),
                None => vstd::pervasive::unreached(),
            };
            let summary_html = match &entries[k].description {
                Some(t) => Some(strip_cdata(t.as_str())),
                None => None,
            };
            let published_at = match &entries[k].pubdate {
                Some(t) => rss::entry_published_at(t, now_ts),
                None => vstd::pervasive::unreached(),
            };
            let creator = if entries[k].creators.len() > 0 {
                let last = entries[k].creators.len() - 1;
                Some(entries[k].creators[last].clone())
            } else {
                None
            };
            let mut categories: Vec<String> = Vec::new();
            let mut c: usize = 0;
            while c < entries[k].categories.len()
                invariant
                    k < entries@.len(),
                    c <= entries@[k as int].categories@.len(),
                decreases entries@[k as int].categories@.len() - c,
            {
                categories.push(entries[k].categories[c].text.clone());
                c = c + 1;
            }
            let raw = BloombergRssItem {
                title,
                link,
                summary_html,
                published_at,
                creator,
                categories,
            };
            let item = raw.into_rss_item();
            proof {
                assert(item@ =~= rss::item_model_of_entry(e_model, "bloomberg"@, now_ts));
            }
            let ghost items0 = items@;
            items.push(item);
            k = k + 1;
            proof {
                assert(rss::items_view(items@) =~= rss::items_view(items0).push(
                    rss::item_model_of_entry(e_model, "bloomberg"@, now_ts),
                ));
                assert(ms[k - 1] == rss::item_model_of_entry(e_model, "bloomberg"@, now_ts));
                assert(rss::items_view(items@) =~= ms.subrange(0, k as int));
            }
        }
        proof {
            assert(ms.subrange(0, entries@.len() as int) =~= ms);
        }
        Ok(items)
    }

    /// Parses a whole document, taking the current wall-clock time as the
    /// fallback for unparsable dates.
    pub fn parse(&self, xml_text: &str) -> (r: Result<Vec<RssItem>, RssParseError>)
        ensures
            exists|now: i64| rss::parse_result_ok(xml_text@, "bloomberg"@, now, r),
    {
        let now_ts = rss::now_unix();
        let r = self.parse_with_now(xml_text, now_ts);
        proof {
            assert(rss::parse_result_ok(xml_text@, "bloomberg"@, now_ts, r));
        }
        r
    }
}

} // verus!

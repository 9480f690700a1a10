//! The canonical item model: `RssItem`, its content-derived 128-bit
//! identity, and the shared text utilities of the dialect parsers.

pub mod bloomberg;
pub mod coindesk;
pub mod reuters;

use vstd::prelude::*;
use vstd::bytes::{u128_from_le_bytes, spec_u128_from_le_bytes};
use vstd::slice::slice_subrange;
use vstd::string::StringSliceAdditionalSpecFns;
use crate::error::RssParseError;
use crate::scan;
use crate::xml;
use crate::xml::EntryModel;

verus! {

/// What `sha2::Sha256` returns for the given input bytes. The digest is a
/// function of the input alone, stable across processes and machines.
pub uninterp spec fn sha256_of(data: Seq<u8>) -> Seq<u8>;

/// Relies on `sha2::Sha256::digest`: a 32-byte digest computed from the
/// input bytes alone.
#[verifier::external_body]
fn sha256(data: &[u8]) -> (r: Vec<u8>)
    ensures
        r@ == sha256_of(data@),
        r@.len() == 32,
{
    <sha2::Sha256 as sha2::Digest>::digest(data).to_vec()
}

/// What `chrono::DateTime::to_rfc3339` renders for the UTC instant `ts`
/// seconds after the epoch (the empty sequence where `ts` lies outside the
/// representable range). A function of `ts` alone.
pub uninterp spec fn rfc3339_of(ts: i64) -> Seq<char>;

/// Relies on `chrono::DateTime::from_timestamp` and
/// `chrono::DateTime::to_rfc3339`: renders the UTC instant `ts` seconds
/// after the epoch; both depend on `ts` alone.
#[verifier::external_body]
fn rfc3339_render(ts: i64) -> (r: String)
    ensures
        r@ == rfc3339_of(ts),
{
    match chrono::DateTime::from_timestamp(ts, 0) {
        Some(dt) => dt.to_rfc3339(),
        None => String::new(),
    }
}

/// What `chrono::DateTime::parse_from_rfc2822` accepts: `Some(t)` exactly
/// when the text is an RFC 2822 date-time, with `t` its epoch second. A
/// function of the text alone.
pub uninterp spec fn rfc2822_unix(s: Seq<char>) -> Option<i64>;

/// Relies on `chrono::DateTime::parse_from_rfc2822` and
/// `chrono::DateTime::timestamp`: parses an RFC 2822 date-time and converts
/// it to its epoch second; both depend on the text alone.
#[verifier::external_body]
pub fn parse_rfc2822_unix(s: &str) -> (r: Option<i64>)
    ensures
        r == rfc2822_unix(s@),
{
    match chrono::DateTime::parse_from_rfc2822(s) {
        Ok(dt) => Some(dt.timestamp()),
        Err(_) => None,
    }
}

/// Relies on `chrono::Utc::now` and `chrono::DateTime::timestamp`: the
/// current wall-clock time as an epoch second. Nothing is promised of the
/// value; callers treat it as arbitrary.
#[verifier::external_body]
pub fn now_unix() -> i64 {
    chrono::Utc::now().timestamp()
}

/// The mathematical model of one canonical feed item.
#[verifier::ext_equal]
pub ghost struct ItemModel {
    pub id: u128,
    pub source: Seq<char>,
    pub title: Seq<char>,
    pub link: Seq<char>,
    pub summary: Option<Seq<char>>,
    pub published_at: i64,
}

/// The canonical representation of one syndicated entry. Immutable after
/// construction; `id` is a pure function of `(source, title, published_at)`.
#[derive(Debug)]
pub struct RssItem {
    pub id: u128,
    pub source: String,
    pub title: String,
    pub link: String,
    pub summary: Option<String>,
    pub published_at: i64,
}

impl View for RssItem {
    type V = ItemModel;

    open spec fn view(&self) -> ItemModel {
        ItemModel {
            id: self.id,
            source: self.source@,
            title: self.title@,
            link: self.link@,
            summary: match self.summary {
                Some(s) => Some(s@),
                None => None,
            },
            published_at: self.published_at,
        }
    }
}

/// The deterministic identity: the first 16 bytes, read little-endian, of
/// the SHA-256 digest of the UTF-8 bytes of `source`, `title` and the
/// RFC 3339 rendering of `published_at`, concatenated.
pub open spec fn spec_item_id(source: Seq<char>, title: Seq<char>, published_at: i64) -> u128 {
    spec_u128_from_le_bytes(
        sha256_of(
            vstd::utf8::encode_utf8(source) + vstd::utf8::encode_utf8(title)
                + vstd::utf8::encode_utf8(rfc3339_of(published_at)),
        ).subrange(0, 16),
    )
}

fn generate_rss_item_id(source: &str, title: &str, published_at: i64) -> (r: u128)
    ensures
        r == spec_item_id(source@, title@, published_at),
{
    let mut data: Vec<u8> = Vec::new();
    data.extend_from_slice(source.as_bytes());
    data.extend_from_slice(title.as_bytes());
    let ts_render = rfc3339_render(published_at);
    data.extend_from_slice(ts_render.as_str().as_bytes());
    proof {
        assert(data@ =~= vstd::utf8::encode_utf8(source@) + vstd::utf8::encode_utf8(title@)
            + vstd::utf8::encode_utf8(rfc3339_of(published_at)));
    }
    let hash = sha256(data.as_slice());
    let head = slice_subrange(hash.as_slice(), 0, 16);
    u128_from_le_bytes(head)
}

impl RssItem {
    /// Constructs the canonical item. `source`, `title` and `link` are
    /// expected non-empty after trimming; the parsers filter before
    /// constructing. When `published_at` is absent the current wall-clock
    /// time is taken; the identity is then not stable across calls.
    pub fn new(
        source: String,
        title: String,
        link: String,
        summary: Option<String>,
        published_at: Option<i64>,
    ) -> (r: RssItem)
        ensures
            r.source@ == source@,
            r.title@ == title@,
            r.link@ == link@,
            r@.summary == (match summary {
                Some(s) => Some(s@),
                None => None::<Seq<char>>,
            }),
            published_at matches Some(ts) ==> r.published_at == ts,
            r.id == spec_item_id(source@, title@, r.published_at),
    {
        let ts: i64 = match published_at {
            Some(t) => t,
            None => now_unix(),
        };
        let id = generate_rss_item_id(source.as_str(), title.as_str(), ts);
        RssItem { id, source, title, link, summary, published_at: ts }
    }
}

/// Two constructions from the same `(source, title, published_at)` carry
/// the same identifier, in any process and on any machine: the identity is
/// a function of those three fields alone.
pub proof fn lemma_identity_deterministic(a: ItemModel, b: ItemModel)
    requires
        a.source == b.source,
        a.title == b.title,
        a.published_at == b.published_at,
        a.id == spec_item_id(a.source, a.title, a.published_at),
        b.id == spec_item_id(b.source, b.title, b.published_at),
    ensures
        a.id == b.id,
{
}

/// Whitespace-trimmed `t`.
pub open spec fn spec_trim(t: Seq<char>) -> Seq<char> {
    let lo = scan::spec_skip_ws(t, 0);
    let hi = scan::spec_rtrim_end(t, t.len() as int);
    if lo <= hi {
        t.subrange(lo, hi)
    } else {
        Seq::empty()
    }
}

/// The CDATA opener, `<![CDATA[`.
pub open spec fn cdata_open() -> Seq<char> {
    seq!['<', '!', '[', 'C', 'D', 'A', 'T', 'A', '[']
}

/// The CDATA closer, `]]>`.
pub open spec fn cdata_close() -> Seq<char> {
    seq![']', ']', '>']
}

/// What `strip_cdata` returns: when the whole trimmed text is one CDATA
/// section, its interior; any other text is passed through unchanged.
pub open spec fn spec_strip_cdata(t: Seq<char>) -> Seq<char> {
    let tr = spec_trim(t);
    if tr.len() >= 12 && tr.subrange(0, 9) == cdata_open()
        && tr.subrange(tr.len() - 3, tr.len() as int) == cdata_close() {
        tr.subrange(9, tr.len() - 3)
    } else {
        t
    }
}

/// Removes a CDATA wrapper when the trimmed text is exactly one CDATA
/// section; all other text (including text merely containing CDATA markers
/// mid-string) passes through unchanged.
pub fn strip_cdata(text: &str) -> (r: String)
    ensures
        r@ == spec_strip_cdata(text@),
{
    let v = scan::chars_of(text);
    let lo = scan::skip_ws(&v, 0);
    let hi = scan::rtrim_end(&v, v.len());
    proof {
        scan::lemma_skip_ws(v@, 0);
        scan::lemma_rtrim_end(v@, v@.len() as int);
    }
    if lo <= hi && hi - lo >= 12 {
        let mut opener: Vec<char> = Vec::new();
        opener.push('<');
        opener.push('!');
        opener.push('[');
        opener.push('C');
        opener.push('D');
        opener.push('A');
        opener.push('T');
        opener.push('A');
        opener.push('[');
        let mut closer: Vec<char> = Vec::new();
        closer.push(']');
        closer.push(']');
        closer.push('>');
        proof {
            assert(opener@ =~= cdata_open());
            assert(closer@ =~= cdata_close());
        }
        let open_here = scan::match_at(&v, lo, &opener);
        let close_here = scan::match_at(&v, hi - 3, &closer);
        proof {
            let tr = spec_trim(text@);
            assert(tr =~= v@.subrange(lo as int, hi as int));
            if scan::spec_match_at(v@, lo as int, cdata_open()) {
                assert(tr.subrange(0, 9) =~= cdata_open());
            }
            if tr.subrange(0, 9) == cdata_open() {
                assert forall|k: int| 0 <= k < 9 implies v@[lo + k] == cdata_open()[k] by {
                    assert(tr.subrange(0, 9)[k] == cdata_open()[k]);
                }
                assert(scan::spec_match_at(v@, lo as int, cdata_open()));
            }
            if scan::spec_match_at(v@, hi - 3, cdata_close()) {
                assert(tr.subrange(tr.len() - 3, tr.len() as int) =~= cdata_close());
            }
            if tr.subrange(tr.len() - 3, tr.len() as int) == cdata_close() {
                assert forall|k: int| 0 <= k < 3 implies v@[hi - 3 + k] == cdata_close()[k] by {
                    assert(tr.subrange(tr.len() - 3, tr.len() as int)[k] == cdata_close()[k]);
                }
                assert(scan::spec_match_at(v@, hi - 3, cdata_close()));
            }
            assert(open_here == (tr.subrange(0, 9) == cdata_open()));
            assert(close_here == (tr.subrange(tr.len() - 3, tr.len() as int) == cdata_close()));
        }
        if open_here && close_here {
            proof {
                let tr = spec_trim(text@);
                assert(tr.subrange(9, tr.len() - 3) =~= v@.subrange(lo + 9, hi - 3));
            }
            return scan::substring_of(&v, lo + 9, hi - 3);
        }
        return text.to_owned();
    }
    proof {
        let tr = spec_trim(text@);
        if lo as int <= hi as int {
            assert(tr =~= v@.subrange(lo as int, hi as int));
        }
        assert(tr.len() < 12);
    }
    text.to_owned()
}

/// CDATA-strips an optional field.
pub open spec fn opt_strip(d: Option<Seq<char>>) -> Option<Seq<char>> {
    match d {
        Some(x) => Some(spec_strip_cdata(x)),
        None => None,
    }
}

/// The canonical item a complete captured entry turns into: title and
/// summary CDATA-stripped, the publish date read as RFC 2822 with the
/// current time `now` as fallback, and the identity derived from the
/// result.
pub open spec fn item_model_of_entry(e: EntryModel, source: Seq<char>, now: i64) -> ItemModel {
    let title = spec_strip_cdata(e.title.unwrap());
    let link = e.link.unwrap();
    let summary = opt_strip(e.description);
    let ts = match rfc2822_unix(e.pubdate.unwrap()) {
        Some(t) => t,
        None => now,
    };
    ItemModel {
        id: spec_item_id(source, title, ts),
        source,
        title,
        link,
        summary,
        published_at: ts,
    }
}

/// What a dialect parser yields for a whole document: the canonical items
/// of its complete entries, in document order, or a structural error.
pub open spec fn spec_parse_feed(x: Seq<char>, source: Seq<char>, now: i64) -> Option<
    Seq<ItemModel>,
> {
    match xml::spec_parse_raw(x) {
        Some(es) => Some(es.map_values(|e: EntryModel| item_model_of_entry(e, source, now))),
        None => None,
    }
}

/// The item sequence a vector of items stands for.
pub open spec fn items_view(v: Seq<RssItem>) -> Seq<ItemModel> {
    v.map_values(|it: RssItem| it@)
}

/// A parse result is right for `(x, source, now)`: on a well-formed
/// document exactly the items of [`spec_parse_feed`]; on a malformed one a
/// structural `Xml` error.
pub open spec fn parse_result_ok(
    x: Seq<char>,
    source: Seq<char>,
    now: i64,
    r: Result<Vec<RssItem>, RssParseError>,
) -> bool {
    match spec_parse_feed(x, source, now) {
        Some(ms) => r matches Ok(v) && items_view(v@) == ms,
        None => r matches Err(e) && e matches RssParseError::Xml(_),
    }
}

/// The publish date of a complete entry: its RFC 2822 field, or `now` when
/// that field does not parse.
pub fn entry_published_at(pubdate: &String, now: i64) -> (r: i64)
    ensures
        r == (match rfc2822_unix(pubdate@) {
            Some(t) => t,
            None => now,
        }),
{
    match parse_rfc2822_unix(pubdate.as_str()) {
        Some(t) => t,
        None => now,
    }
}

} // verus!

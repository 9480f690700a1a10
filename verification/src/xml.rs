//! A tolerant streaming XML tokenizer and the shared entry machine of the
//! dialect parsers. The tokenizer recognises start tags with attributes,
//! end tags, comments, CDATA sections, processing instructions and
//! document-type declarations; everything else between tags is plain text.
//! Unknown tags are ignored by the machine; a token stream malformed beyond
//! recovery is a structural error.

use vstd::prelude::*;
use crate::error::RssParseError;
use crate::scan;
use crate::rss::{cdata_open, cdata_close};

verus! {

/// The comment opener, `<!--`.
pub open spec fn comment_open() -> Seq<char> {
    seq!['<', '!', '-', '-']
}

/// The comment closer, `-->`.
pub open spec fn comment_close() -> Seq<char> {
    seq!['-', '-', '>']
}

/// The processing-instruction opener, `<?`.
pub open spec fn pi_open() -> Seq<char> {
    seq!['<', '?']
}

/// The processing-instruction closer, `?>`.
pub open spec fn pi_close() -> Seq<char> {
    seq!['?', '>']
}

/// The markup-declaration opener, `<!`.
pub open spec fn decl_open() -> Seq<char> {
    seq!['<', '!']
}

/// The end-tag opener, `</`.
pub open spec fn end_open() -> Seq<char> {
    seq!['<', '/']
}

/// The model of the result of scanning a start tag's attribute list.
pub ghost enum AttrsModel {
    Good { attrs: Seq<(Seq<char>, Seq<char>)>, end: int, self_closing: bool },
    Bad,
}

/// Scans the attribute list of a start tag beginning at `i` (just past the
/// tag name): a sequence of `name`, `name="value"`, `name='value'` or
/// `name=value` forms, ended by `>` or `/>`. `Bad` when the tag never
/// closes, an attribute name is empty, or a quoted value never closes.
pub open spec fn spec_scan_attrs(s: Seq<char>, i: int) -> AttrsModel
    decreases s.len() - i,
        via spec_scan_attrs_dec
{
    let j = scan::spec_skip_ws(s, i);
    if j >= s.len() {
        AttrsModel::Bad
    } else if s[j] == '>' {
        AttrsModel::Good { attrs: Seq::empty(), end: j + 1, self_closing: false }
    } else if s[j] == '/' {
        if j + 1 < s.len() && s[j + 1] == '>' {
            AttrsModel::Good { attrs: Seq::empty(), end: j + 2, self_closing: true }
        } else {
            AttrsModel::Bad
        }
    } else if s[j] == '=' {
        AttrsModel::Bad
    } else {
        let ne = scan::spec_attr_delim_from(s, j + 1);
        let name = s.subrange(j, ne);
        let k = scan::spec_skip_ws(s, ne);
        if k < s.len() && s[k] == '=' {
            let q = scan::spec_skip_ws(s, k + 1);
            if q >= s.len() {
                AttrsModel::Bad
            } else if s[q] == '"' || s[q] == '\'' {
                let e = scan::spec_find_char(s, q + 1, s[q]);
                if e >= s.len() {
                    AttrsModel::Bad
                } else {
                    match spec_scan_attrs(s, e + 1) {
                        AttrsModel::Good { attrs, end, self_closing } => AttrsModel::Good {
                            attrs: seq![(name, s.subrange(q + 1, e))] + attrs,
                            end,
                            self_closing,
                        },
                        AttrsModel::Bad => AttrsModel::Bad,
                    }
                }
            } else {
                let e = scan::spec_tag_delim_from(s, q);
                match spec_scan_attrs(s, e) {
                    AttrsModel::Good { attrs, end, self_closing } => AttrsModel::Good {
                        attrs: seq![(name, s.subrange(q, e))] + attrs,
                        end,
                        self_closing,
                    },
                    AttrsModel::Bad => AttrsModel::Bad,
                }
            }
        } else {
            match spec_scan_attrs(s, k) {
                AttrsModel::Good { attrs, end, self_closing } => AttrsModel::Good {
                    attrs: seq![(name, Seq::empty())] + attrs,
                    end,
                    self_closing,
                },
                AttrsModel::Bad => AttrsModel::Bad,
            }
        }
    }
}

#[via_fn]
proof fn spec_scan_attrs_dec(s: Seq<char>, i: int) {
    let j = scan::spec_skip_ws(s, i);
    if 0 <= i <= s.len() {
        scan::lemma_skip_ws(s, i);
    }
    if j < s.len() && s[j] != '>' && s[j] != '/' && s[j] != '=' {
        scan::lemma_attr_delim_from(s, j + 1);
        let ne = scan::spec_attr_delim_from(s, j + 1);
        scan::lemma_skip_ws(s, ne);
        let k = scan::spec_skip_ws(s, ne);
        if k < s.len() && s[k] == '=' {
            scan::lemma_skip_ws(s, k + 1);
            let q = scan::spec_skip_ws(s, k + 1);
            if q < s.len() {
                scan::lemma_find_char(s, q + 1, s[q]);
                scan::lemma_tag_delim_from(s, q);
            }
        }
    }
}

/// The attribute scan stays within the text and makes progress.
pub proof fn lemma_scan_attrs_bounds(s: Seq<char>, i: int)
    requires
        0 <= i <= s.len(),
    ensures
        spec_scan_attrs(s, i) matches AttrsModel::Good { end, .. } ==> i < end <= s.len(),
    decreases s.len() - i,
{
    let j = scan::spec_skip_ws(s, i);
    scan::lemma_skip_ws(s, i);
    if j < s.len() && s[j] != '>' && s[j] != '/' && s[j] != '=' {
        scan::lemma_attr_delim_from(s, j + 1);
        let ne = scan::spec_attr_delim_from(s, j + 1);
        scan::lemma_skip_ws(s, ne);
        let k = scan::spec_skip_ws(s, ne);
        if k < s.len() && s[k] == '=' {
            scan::lemma_skip_ws(s, k + 1);
            let q = scan::spec_skip_ws(s, k + 1);
            if q < s.len() {
                if s[q] == '"' || s[q] == '\'' {
                    scan::lemma_find_char(s, q + 1, s[q]);
                    let e = scan::spec_find_char(s, q + 1, s[q]);
                    if e < s.len() {
                        lemma_scan_attrs_bounds(s, e + 1);
                    }
                } else {
                    scan::lemma_tag_delim_from(s, q);
                    let e = scan::spec_tag_delim_from(s, q);
                    lemma_scan_attrs_bounds(s, e);
                }
            }
        } else {
            lemma_scan_attrs_bounds(s, k);
        }
    }
}

/// The model of one token of the stream, each carrying the index just past
/// itself. `Skip` covers text runs, CDATA sections, comments, processing
/// instructions and markup declarations: everything with no effect on the
/// entry machine's structure.
pub ghost enum TokModel {
    Skip { end: int },
    StartTag { name: Seq<char>, attrs: Seq<(Seq<char>, Seq<char>)>, self_closing: bool, end: int },
    EndTag { name: Seq<char>, end: int },
    Eof,
    Fail,
}

/// The token starting at index `i` of `s`.
pub open spec fn spec_token(s: Seq<char>, i: int) -> TokModel {
    if i < 0 || i >= s.len() {
        TokModel::Eof
    } else if s[i] != '<' {
        TokModel::Skip { end: scan::spec_find_char(s, i + 1, '<') }
    } else if scan::spec_match_at(s, i, comment_open()) {
        let e = scan::spec_find_pat(s, i + 4, comment_close());
        if e >= s.len() {
            TokModel::Fail
        } else {
            TokModel::Skip { end: e + 3 }
        }
    } else if scan::spec_match_at(s, i, cdata_open()) {
        let e = scan::spec_find_pat(s, i + 9, cdata_close());
        if e >= s.len() {
            TokModel::Fail
        } else {
            TokModel::Skip { end: e + 3 }
        }
    } else if scan::spec_match_at(s, i, pi_open()) {
        let e = scan::spec_find_pat(s, i + 2, pi_close());
        if e >= s.len() {
            TokModel::Fail
        } else {
            TokModel::Skip { end: e + 2 }
        }
    } else if scan::spec_match_at(s, i, end_open()) {
        let e = scan::spec_find_char(s, i + 2, '>');
        if e >= s.len() {
            TokModel::Fail
        } else {
            let ne = scan::spec_tag_delim_from(s, i + 2);
            let name_end = if ne < e {
                ne
            } else {
                e
            };
            TokModel::EndTag { name: s.subrange(i + 2, name_end), end: e + 1 }
        }
    } else if scan::spec_match_at(s, i, decl_open()) {
        let e = scan::spec_find_char(s, i + 2, '>');
        if e >= s.len() {
            TokModel::Fail
        } else {
            TokModel::Skip { end: e + 1 }
        }
    } else {
        let ne = scan::spec_tag_delim_from(s, i + 1);
        if ne == i + 1 {
            TokModel::Fail
        } else {
            match spec_scan_attrs(s, ne) {
                AttrsModel::Good { attrs, end, self_closing } => TokModel::StartTag {
                    name: s.subrange(i + 1, ne),
                    attrs,
                    self_closing,
                    end,
                },
                AttrsModel::Bad => TokModel::Fail,
            }
        }
    }
}

/// Every token ends past where it starts and within the text.
pub proof fn lemma_token_progress(s: Seq<char>, i: int)
    requires
        0 <= i <= s.len(),
    ensures
        spec_token(s, i) matches TokModel::Skip { end } ==> i < end <= s.len(),
        spec_token(s, i) matches TokModel::StartTag { end, .. } ==> i < end <= s.len(),
        spec_token(s, i) matches TokModel::EndTag { end, .. } ==> i < end <= s.len(),
{
    if i < s.len() {
        if s[i] != '<' {
            scan::lemma_find_char(s, i + 1, '<');
        } else if scan::spec_match_at(s, i, comment_open()) {
            scan::lemma_find_pat(s, i + 4, comment_close());
        } else if scan::spec_match_at(s, i, cdata_open()) {
            scan::lemma_find_pat(s, i + 9, cdata_close());
        } else if scan::spec_match_at(s, i, pi_open()) {
            scan::lemma_find_pat(s, i + 2, pi_close());
        } else if scan::spec_match_at(s, i, end_open()) {
            scan::lemma_find_char(s, i + 2, '>');
            scan::lemma_tag_delim_from(s, i + 2);
        } else if scan::spec_match_at(s, i, decl_open()) {
            scan::lemma_find_char(s, i + 2, '>');
        } else {
            scan::lemma_tag_delim_from(s, i + 1);
            let ne = scan::spec_tag_delim_from(s, i + 1);
            if i + 1 < ne <= s.len() {
                lemma_scan_attrs_bounds(s, ne);
            }
        }
    }
}

/// One scanned attribute: name and (possibly empty) value.
pub struct Attr {
    pub name: Vec<char>,
    pub value: Vec<char>,
}

impl View for Attr {
    type V = (Seq<char>, Seq<char>);

    open spec fn view(&self) -> (Seq<char>, Seq<char>) {
        (self.name@, self.value@)
    }
}

/// The attribute sequence a vector of attributes stands for.
pub open spec fn attrs_view(attrs: Seq<Attr>) -> Seq<(Seq<char>, Seq<char>)> {
    attrs.map_values(|a: Attr| a@)
}

/// Prepends already-scanned attributes to the result of scanning the rest.
pub open spec fn attach(acc: Seq<(Seq<char>, Seq<char>)>, m: AttrsModel) -> AttrsModel {
    match m {
        AttrsModel::Good { attrs, end, self_closing } => AttrsModel::Good {
            attrs: acc + attrs,
            end,
            self_closing,
        },
        AttrsModel::Bad => AttrsModel::Bad,
    }
}

enum AttrsScan {
    Good { attrs: Vec<Attr>, end: usize, self_closing: bool },
    Bad,
}

fn scan_attrs(v: &Vec<char>, i: usize) -> (r: AttrsScan)
    requires
        i <= v@.len(),
    ensures
        match r {
            AttrsScan::Good { attrs, end, self_closing } => spec_scan_attrs(v@, i as int)
                == (AttrsModel::Good {
                attrs: attrs_view(attrs@),
                end: end as int,
                self_closing,
            }),
            AttrsScan::Bad => spec_scan_attrs(v@, i as int) == AttrsModel::Bad,
        },
{
    let mut cur = i;
    let mut acc: Vec<Attr> = Vec::new();
    proof {
        assert(attrs_view(acc@) =~= Seq::<(Seq<char>, Seq<char>)>::empty());
        assert(attach(attrs_view(acc@), spec_scan_attrs(v@, cur as int)) == spec_scan_attrs(
            v@,
            i as int,
        )) by {
            match spec_scan_attrs(v@, cur as int) {
                AttrsModel::Good { attrs, end, self_closing } => {
                    assert(attrs_view(acc@) + attrs =~= attrs);
                },
                AttrsModel::Bad => {},
            }
        }
    }
    loop
        invariant
            i <= cur <= v@.len(),
            attach(attrs_view(acc@), spec_scan_attrs(v@, cur as int)) == spec_scan_attrs(
                v@,
                i as int,
            ),
        decreases v@.len() - cur,
    {
        let ghost acc0 = acc@;
        let ghost cur0: int = cur as int;
        let j = scan::skip_ws(v, cur);
        proof {
            scan::lemma_skip_ws(v@, cur as int);
        }
        if j == v.len() {
            return AttrsScan::Bad;
        }
        let c = v[j];
        if c == '>' {
            proof {
                assert(attrs_view(acc@) + Seq::<(Seq<char>, Seq<char>)>::empty() =~= attrs_view(
                    acc@,
                ));
            }
            return AttrsScan::Good { attrs: acc, end: j + 1, self_closing: false };
        }
        if c == '/' {
            if j + 1 < v.len() && v[j + 1] == '>' {
                proof {
                    assert(attrs_view(acc@) + Seq::<(Seq<char>, Seq<char>)>::empty() =~= attrs_view(
                        acc@,
                    ));
                }
                return AttrsScan::Good { attrs: acc, end: j + 2, self_closing: true };
            }
            return AttrsScan::Bad;
        }
        if c == '=' {
            return AttrsScan::Bad;
        }
        let ne = scan::attr_delim_from(v, j + 1);
        proof {
            scan::lemma_attr_delim_from(v@, j + 1);
        }
        let name = scan::subvec(v, j, ne);
        let k = scan::skip_ws(v, ne);
        proof {
            scan::lemma_skip_ws(v@, ne as int);
        }
        if k < v.len() && v[k] == '=' {
            let q = scan::skip_ws(v, k + 1);
            proof {
                scan::lemma_skip_ws(v@, k + 1);
            }
            if q == v.len() {
                return AttrsScan::Bad;
            }
            let qc = v[q];
            if qc == '"' || qc == '\'' {
                let e = scan::find_char(v, q + 1, qc);
                proof {
                    scan::lemma_find_char(v@, q + 1, qc);
                }
                if e == v.len() {
                    return AttrsScan::Bad;
                }
                let value = scan::subvec(v, q + 1, e);
                acc.push(Attr { name, value });
                cur = e + 1;
                proof {
                    lemma_attach_step(v@, i as int, cur0, cur as int, acc0, acc@);
                }
            } else {
                let e = scan::tag_delim_from(v, q);
                proof {
                    scan::lemma_tag_delim_from(v@, q as int);
                }
                let value = scan::subvec(v, q, e);
                acc.push(Attr { name, value });
                cur = e;
                proof {
                    lemma_attach_step(v@, i as int, cur0, cur as int, acc0, acc@);
                }
            }
        } else {
            let value: Vec<char> = Vec::new();
            acc.push(Attr { name, value });
            cur = k;
            proof {
                lemma_attach_step(v@, i as int, cur0, cur as int, acc0, acc@);
            }
        }
    }
}

/// One unfolding step of the attribute-scan loop: when scanning from
/// `cur0` yields exactly the attribute just pushed and then continues at
/// `cur1`, attaching the grown accumulator to the scan from `cur1` still
/// gives the scan from `i0`.
proof fn lemma_attach_step(
    s: Seq<char>,
    i0: int,
    cur0: int,
    cur1: int,
    acc0: Seq<Attr>,
    acc1: Seq<Attr>,
)
    requires
        acc1.len() == acc0.len() + 1,
        acc1 == acc0.push(acc1.last()),
        attach(attrs_view(acc0), spec_scan_attrs(s, cur0)) == spec_scan_attrs(s, i0),
        spec_scan_attrs(s, cur0) == attach(seq![acc1.last()@], spec_scan_attrs(s, cur1)),
    ensures
        attach(attrs_view(acc1), spec_scan_attrs(s, cur1)) == spec_scan_attrs(s, i0),
{
    assert(attrs_view(acc1) =~= attrs_view(acc0).push(acc1.last()@));
    match spec_scan_attrs(s, cur1) {
        AttrsModel::Good { attrs, end, self_closing } => {
            assert(attrs_view(acc0) + (seq![acc1.last()@] + attrs) =~= attrs_view(acc1) + attrs);
        },
        AttrsModel::Bad => {},
    }
}

/// One token, as the executable tokenizer hands it out.
pub enum Tok {
    Skip { end: usize },
    StartTag { name: Vec<char>, attrs: Vec<Attr>, self_closing: bool, end: usize },
    EndTag { name: Vec<char>, end: usize },
    Eof,
    Fail,
}

impl View for Tok {
    type V = TokModel;

    open spec fn view(&self) -> TokModel {
        match self {
            Tok::Skip { end } => TokModel::Skip { end: *end as int },
            Tok::StartTag { name, attrs, self_closing, end } => TokModel::StartTag {
                name: name@,
                attrs: attrs_view(attrs@),
                self_closing: *self_closing,
                end: *end as int,
            },
            Tok::EndTag { name, end } => TokModel::EndTag { name: name@, end: *end as int },
            Tok::Eof => TokModel::Eof,
            Tok::Fail => TokModel::Fail,
        }
    }
}

fn pat_comment_open() -> (r: Vec<char>)
    ensures
        r@ == comment_open(),
{
    let mut p: Vec<char> = Vec::new();
    p.push('<');
    p.push('!');
    p.push('-');
    p.push('-');
    proof {
        assert(p@ =~= comment_open());
    }
    p
}

fn pat_comment_close() -> (r: Vec<char>)
    ensures
        r@ == comment_close(),
{
    let mut p: Vec<char> = Vec::new();
    p.push('-');
    p.push('-');
    p.push('>');
    proof {
        assert(p@ =~= comment_close());
    }
    p
}

fn pat_cdata_open() -> (r: Vec<char>)
    ensures
        r@ == cdata_open(),
{
    let mut p: Vec<char> = Vec::new();
    p.push('<');
    p.push('!');
    p.push('[');
    p.push('C');
    p.push('D');
    p.push('A');
    p.push('T');
    p.push('A');
    p.push('[');
    proof {
        assert(p@ =~= cdata_open());
    }
    p
}

fn pat_cdata_close() -> (r: Vec<char>)
    ensures
        r@ == cdata_close(),
{
    let mut p: Vec<char> = Vec::new();
    p.push(']');
    p.push(']');
    p.push('>');
    proof {
        assert(p@ =~= cdata_close());
    }
    p
}

fn pat_pi_open() -> (r: Vec<char>)
    ensures
        r@ == pi_open(),
{
    let mut p: Vec<char> = Vec::new();
    p.push('<');
    p.push('?');
    proof {
        assert(p@ =~= pi_open());
    }
    p
}

fn pat_pi_close() -> (r: Vec<char>)
    ensures
        r@ == pi_close(),
{
    let mut p: Vec<char> = Vec::new();
    p.push('?');
    p.push('>');
    proof {
        assert(p@ =~= pi_close());
    }
    p
}

fn pat_decl_open() -> (r: Vec<char>)
    ensures
        r@ == decl_open(),
{
    let mut p: Vec<char> = Vec::new();
    p.push('<');
    p.push('!');
    proof {
        assert(p@ =~= decl_open());
    }
    p
}

fn pat_end_open() -> (r: Vec<char>)
    ensures
        r@ == end_open(),
{
    let mut p: Vec<char> = Vec::new();
    p.push('<');
    p.push('/');
    proof {
        assert(p@ =~= end_open());
    }
    p
}

/// Reads the token starting at `i`.
pub fn token(v: &Vec<char>, i: usize) -> (t: Tok)
    requires
        i <= v@.len(),
    ensures
        t@ == spec_token(v@, i as int),
{
    if i == v.len() {
        return Tok::Eof;
    }
    if v[i] != '<' {
        let end = scan::find_char(v, i + 1, '<');
        return Tok::Skip { end };
    }
    let com_open = pat_comment_open();
    if scan::match_at(v, i, &com_open) {
        let com_close = pat_comment_close();
        let e = scan::find_pat(v, i + 4, &com_close);
        proof {
            scan::lemma_find_pat(v@, i + 4, comment_close());
        }
        if e == v.len() {
            return Tok::Fail;
        }
        return Tok::Skip { end: e + 3 };
    }
    let cd_open = pat_cdata_open();
    if scan::match_at(v, i, &cd_open) {
        let cd_close = pat_cdata_close();
        let e = scan::find_pat(v, i + 9, &cd_close);
        proof {
            scan::lemma_find_pat(v@, i + 9, cdata_close());
        }
        if e == v.len() {
            return Tok::Fail;
        }
        return Tok::Skip { end: e + 3 };
    }
    let p_open = pat_pi_open();
    if scan::match_at(v, i, &p_open) {
        let p_close = pat_pi_close();
        let e = scan::find_pat(v, i + 2, &p_close);
        proof {
            scan::lemma_find_pat(v@, i + 2, pi_close());
        }
        if e == v.len() {
            return Tok::Fail;
        }
        return Tok::Skip { end: e + 2 };
    }
    let e_open = pat_end_open();
    if scan::match_at(v, i, &e_open) {
        let e = scan::find_char(v, i + 2, '>');
        proof {
            scan::lemma_find_char(v@, i + 2, '>');
        }
        if e == v.len() {
            return Tok::Fail;
        }
        let ne = scan::tag_delim_from(v, i + 2);
        proof {
            scan::lemma_tag_delim_from(v@, i + 2);
        }
        let name_end = if ne < e {
            ne
        } else {
            e
        };
        let name = scan::subvec(v, i + 2, name_end);
        return Tok::EndTag { name, end: e + 1 };
    }
    let d_open = pat_decl_open();
    if scan::match_at(v, i, &d_open) {
        let e = scan::find_char(v, i + 2, '>');
        proof {
            scan::lemma_find_char(v@, i + 2, '>');
        }
        if e == v.len() {
            return Tok::Fail;
        }
        return Tok::Skip { end: e + 1 };
    }
    let ne = scan::tag_delim_from(v, i + 1);
    proof {
        scan::lemma_tag_delim_from(v@, i + 1);
    }
    if ne == i + 1 {
        return Tok::Fail;
    }
    let name = scan::subvec(v, i + 1, ne);
    match scan_attrs(v, ne) {
        AttrsScan::Good { attrs, end, self_closing } => Tok::StartTag {
            name,
            attrs,
            self_closing,
            end,
        },
        AttrsScan::Bad => Tok::Fail,
    }
}

/// The model of capturing the raw text between a field's start tag and its
/// matching end tag. `Missing` when the document ends first (the field is
/// then simply absent); `Fail` on a structural error inside.
pub ghost enum CapModel {
    Found { text: Seq<char>, end: int },
    Missing,
    Fail,
}

/// Scans from `i` for the end tag matching `name`, counting nested
/// same-named tags; `text` is everything from `start` up to that end tag,
/// nested markup included.
pub open spec fn spec_capture(
    s: Seq<char>,
    start: int,
    i: int,
    name: Seq<char>,
    depth: int,
) -> CapModel
    decreases s.len() - i,
        via spec_capture_dec
{
    match spec_token(s, i) {
        TokModel::Eof => CapModel::Missing,
        TokModel::Fail => CapModel::Fail,
        TokModel::Skip { end } => spec_capture(s, start, end, name, depth),
        TokModel::StartTag { name: n2, attrs, self_closing, end } => spec_capture(
            s,
            start,
            end,
            name,
            if n2 == name && !self_closing {
                depth + 1
            } else {
                depth
            },
        ),
        TokModel::EndTag { name: n2, end } => if n2 == name {
            if depth <= 0 {
                CapModel::Found { text: s.subrange(start, i), end }
            } else {
                spec_capture(s, start, end, name, depth - 1)
            }
        } else {
            spec_capture(s, start, end, name, depth)
        },
    }
}

#[via_fn]
proof fn spec_capture_dec(s: Seq<char>, start: int, i: int, name: Seq<char>, depth: int) {
    if 0 <= i <= s.len() {
        lemma_token_progress(s, i);
    }
}

/// A successful capture ends past where it started and within the text.
pub proof fn lemma_capture_progress(s: Seq<char>, start: int, i: int, name: Seq<char>, depth: int)
    requires
        0 <= i <= s.len(),
    ensures
        spec_capture(s, start, i, name, depth) matches CapModel::Found { end, .. } ==> i < end
            <= s.len(),
    decreases s.len() - i,
{
    lemma_token_progress(s, i);
    match spec_token(s, i) {
        TokModel::Skip { end } => {
            lemma_capture_progress(s, start, end, name, depth);
        },
        TokModel::StartTag { name: n2, self_closing, end, .. } => {
            if n2 == name && !self_closing {
                lemma_capture_progress(s, start, end, name, depth + 1);
            } else {
                lemma_capture_progress(s, start, end, name, depth);
            }
        },
        TokModel::EndTag { name: n2, end } => {
            if n2 == name {
                if depth > 0 {
                    lemma_capture_progress(s, start, end, name, depth - 1);
                }
            } else {
                lemma_capture_progress(s, start, end, name, depth);
            }
        },
        _ => {},
    }
}

/// The executable counterpart of [`CapModel`].
pub enum CapText {
    Found { text: Vec<char>, end: usize },
    Missing,
    Fail,
}

/// Captures the raw text from `start` up to the end tag matching `name`.
fn capture_text(v: &Vec<char>, start: usize, name: &Vec<char>) -> (r: CapText)
    requires
        start <= v@.len(),
    ensures
        match spec_capture(v@, start as int, start as int, name@, 0) {
            CapModel::Found { text, end } => r matches CapText::Found { text: t, end: e } && t@
                == text && e as int == end,
            CapModel::Missing => r matches CapText::Missing,
            CapModel::Fail => r matches CapText::Fail,
        },
{
    let mut i = start;
    let mut depth: usize = 0;
    loop
        invariant
            start <= i <= v@.len(),
            depth <= i,
            spec_capture(v@, start as int, i as int, name@, depth as int) == spec_capture(
                v@,
                start as int,
                start as int,
                name@,
                0,
            ),
        decreases v@.len() - i,
    {
        let t = token(v, i);
        proof {
            lemma_token_progress(v@, i as int);
        }
        match t {
            Tok::Eof => {
                return CapText::Missing;
            },
            Tok::Fail => {
                return CapText::Fail;
            },
            Tok::Skip { end } => {
                i = end;
            },
            Tok::StartTag { name: n2, self_closing, end, .. } => {
                if !self_closing && scan::chars_eq(&n2, name) {
                    depth = depth + 1;
                }
                i = end;
            },
            Tok::EndTag { name: n2, end } => {
                if scan::chars_eq(&n2, name) {
                    if depth == 0 {
                        let text = scan::subvec(v, start, i);
                        return CapText::Found { text, end };
                    }
                    depth = depth - 1;
                }
                i = end;
            },
        }
    }
}

/// The model of one category entry: an optional `domain` attribute and the
/// raw category text.
#[verifier::ext_equal]
pub ghost struct CatModel {
    pub domain: Option<Seq<char>>,
    pub text: Seq<char>,
}

/// One category entry as captured from the feed, text kept raw.
#[derive(Debug)]
pub struct RawCategory {
    pub domain: Option<String>,
    pub text: String,
}

impl View for RawCategory {
    type V = CatModel;

    open spec fn view(&self) -> CatModel {
        CatModel {
            domain: match self.domain {
                Some(d) => Some(d@),
                None => None,
            },
            text: self.text@,
        }
    }
}

/// The model of one entry's captured fields, all raw: CDATA unwrapping and
/// date parsing happen in the dialect layer above.
#[verifier::ext_equal]
pub ghost struct EntryModel {
    pub title: Option<Seq<char>>,
    pub link: Option<Seq<char>>,
    pub description: Option<Seq<char>>,
    pub pubdate: Option<Seq<char>>,
    pub creators: Seq<Seq<char>>,
    pub categories: Seq<CatModel>,
}

/// One entry's captured fields, all raw.
#[derive(Debug)]
pub struct RawEntry {
    pub title: Option<String>,
    pub link: Option<String>,
    pub description: Option<String>,
    pub pubdate: Option<String>,
    pub creators: Vec<String>,
    pub categories: Vec<RawCategory>,
}

impl View for RawEntry {
    type V = EntryModel;

    open spec fn view(&self) -> EntryModel {
        EntryModel {
            title: match self.title {
                Some(t) => Some(t@),
                None => None,
            },
            link: match self.link {
                Some(t) => Some(t@),
                None => None,
            },
            description: match self.description {
                Some(t) => Some(t@),
                None => None,
            },
            pubdate: match self.pubdate {
                Some(t) => Some(t@),
                None => None,
            },
            creators: self.creators@.map_values(|s: String| s@),
            categories: self.categories@.map_values(|c: RawCategory| c@),
        }
    }
}

/// The entry sequence a vector of raw entries stands for.
pub open spec fn entries_view(es: Seq<RawEntry>) -> Seq<EntryModel> {
    es.map_values(|e: RawEntry| e@)
}

/// An entry with nothing captured yet.
pub open spec fn empty_entry() -> EntryModel {
    EntryModel {
        title: None,
        link: None,
        description: None,
        pubdate: None,
        creators: Seq::empty(),
        categories: Seq::empty(),
    }
}

pub open spec fn item_tag() -> Seq<char> {
    "item"@
}

pub open spec fn title_tag() -> Seq<char> {
    "title"@
}

pub open spec fn link_tag() -> Seq<char> {
    "link"@
}

pub open spec fn description_tag() -> Seq<char> {
    "description"@
}

pub open spec fn pubdate_tag() -> Seq<char> {
    "pubDate"@
}

pub open spec fn creator_tag() -> Seq<char> {
    "creator"@
}

pub open spec fn category_tag() -> Seq<char> {
    "category"@
}

pub open spec fn domain_attr() -> Seq<char> {
    "domain"@
}

/// The tags captured while inside an entry.
pub open spec fn is_field_tag(name: Seq<char>) -> bool {
    name == title_tag() || name == link_tag() || name == description_tag() || name == pubdate_tag()
        || name == creator_tag() || name == category_tag()
}

/// The value of the last `domain` attribute, if any: a repeated attribute's
/// later occurrence wins.
pub open spec fn spec_domain_of(attrs: Seq<(Seq<char>, Seq<char>)>) -> Option<Seq<char>>
    decreases attrs.len(),
{
    if attrs.len() == 0 {
        None
    } else if attrs.last().0 == domain_attr() {
        Some(attrs.last().1)
    } else {
        spec_domain_of(attrs.drop_last())
    }
}

/// How one captured field updates the pending entry. A re-captured scalar
/// field overwrites; creators and categories accumulate in document order.
pub open spec fn update_entry(
    cur: EntryModel,
    name: Seq<char>,
    text: Seq<char>,
    attrs: Seq<(Seq<char>, Seq<char>)>,
) -> EntryModel {
    if name == title_tag() {
        EntryModel { title: Some(text), ..cur }
    } else if name == link_tag() {
        EntryModel { link: Some(text), ..cur }
    } else if name == description_tag() {
        EntryModel { description: Some(text), ..cur }
    } else if name == pubdate_tag() {
        EntryModel { pubdate: Some(text), ..cur }
    } else if name == creator_tag() {
        EntryModel { creators: cur.creators.push(text), ..cur }
    } else if name == category_tag() {
        EntryModel {
            categories: cur.categories.push(CatModel { domain: spec_domain_of(attrs), text }),
            ..cur
        }
    } else {
        cur
    }
}

/// An entry is kept only when title, link and publish date were all seen.
pub open spec fn entry_complete(e: EntryModel) -> bool {
    e.title is Some && e.link is Some && e.pubdate is Some
}

/// The shared entry machine: walks the token stream, toggles the
/// inside-an-entry flag on `<item>` / `</item>`, captures the known fields
/// while inside, keeps complete entries and silently drops incomplete
/// ones. `None` is a structural error.
pub open spec fn spec_scan_entries(
    s: Seq<char>,
    i: int,
    in_item: bool,
    cur: EntryModel,
    acc: Seq<EntryModel>,
) -> Option<Seq<EntryModel>>
    decreases s.len() - i,
        via spec_scan_entries_dec
{
    match spec_token(s, i) {
        TokModel::Eof => Some(acc),
        TokModel::Fail => None,
        TokModel::Skip { end } => spec_scan_entries(s, end, in_item, cur, acc),
        TokModel::StartTag { name, attrs, self_closing, end } => {
            if self_closing {
                spec_scan_entries(s, end, in_item, cur, acc)
            } else if name == item_tag() {
                spec_scan_entries(s, end, true, empty_entry(), acc)
            } else if in_item && is_field_tag(name) {
                match spec_capture(s, end, end, name, 0) {
                    CapModel::Fail => None,
                    CapModel::Missing => spec_scan_entries(s, s.len() as int, in_item, cur, acc),
                    CapModel::Found { text, end: after } => spec_scan_entries(
                        s,
                        after,
                        in_item,
                        update_entry(cur, name, text, attrs),
                        acc,
                    ),
                }
            } else {
                spec_scan_entries(s, end, in_item, cur, acc)
            }
        },
        TokModel::EndTag { name, end } => {
            if name == item_tag() && in_item {
                spec_scan_entries(
                    s,
                    end,
                    false,
                    empty_entry(),
                    if entry_complete(cur) {
                        acc.push(cur)
                    } else {
                        acc
                    },
                )
            } else {
                spec_scan_entries(s, end, in_item, cur, acc)
            }
        },
    }
}

#[via_fn]
proof fn spec_scan_entries_dec(
    s: Seq<char>,
    i: int,
    in_item: bool,
    cur: EntryModel,
    acc: Seq<EntryModel>,
) {
    if 0 <= i <= s.len() {
        lemma_token_progress(s, i);
        match spec_token(s, i) {
            TokModel::StartTag { name, end, .. } => {
                if 0 <= end <= s.len() {
                    lemma_capture_progress(s, end, end, name, 0);
                }
            },
            _ => {},
        }
    }
}

/// What the tokenizer-driven machine yields for a whole document.
pub open spec fn spec_parse_raw(s: Seq<char>) -> Option<Seq<EntryModel>> {
    spec_scan_entries(s, 0, false, empty_entry(), Seq::empty())
}

fn domain_of_attrs(attrs: &Vec<Attr>) -> (r: Option<String>)
    ensures
        match r {
            Some(d) => spec_domain_of(attrs_view(attrs@)) == Some(d@),
            None => spec_domain_of(attrs_view(attrs@)) is None,
        },
{
    let domain_pat = scan::chars_of("domain");
    let mut res: Option<String> = None;
    let mut k: usize = 0;
    proof {
        assert(attrs_view(attrs@).subrange(0, 0) =~= Seq::<(Seq<char>, Seq<char>)>::empty());
    }
    loop
        invariant
            k <= attrs@.len(),
            domain_pat@ == domain_attr(),
            match res {
                Some(d) => spec_domain_of(attrs_view(attrs@).subrange(0, k as int)) == Some(d@),
                None => spec_domain_of(attrs_view(attrs@).subrange(0, k as int)) is None,
            },
        decreases attrs@.len() - k,
    {
        if k == attrs.len() {
            proof {
                assert(attrs_view(attrs@).subrange(0, k as int) =~= attrs_view(attrs@));
            }
            return res;
        }
        let ghost prefix0 = attrs_view(attrs@).subrange(0, k as int);
        if scan::chars_eq(&attrs[k].name, &domain_pat) {
            res = Some(scan::string_from_chars(&attrs[k].value));
        }
        k = k + 1;
        proof {
            let prefix1 = attrs_view(attrs@).subrange(0, k as int);
            assert(prefix1.drop_last() =~= prefix0);
            assert(prefix1.last() == attrs@[k - 1]@);
        }
    }
}

/// A fresh, empty pending entry.
fn new_entry() -> (r: RawEntry)
    ensures
        r@ == empty_entry(),
{
    let r = RawEntry {
        title: None,
        link: None,
        description: None,
        pubdate: None,
        creators: Vec::new(),
        categories: Vec::new(),
    };
    proof {
        assert(r@ =~= empty_entry());
    }
    r
}

/// Tokenizes the document and captures its entries. Exactly the complete
/// entries of [`spec_parse_raw`] come back, in document order; a malformed
/// token stream is a structural `Xml` error.
pub fn scan_entries(xml: &str) -> (r: Result<Vec<RawEntry>, RssParseError>)
    ensures
        match spec_parse_raw(xml@) {
            Some(es) => r matches Ok(v) && entries_view(v@) == es && (forall|k: int|
                0 <= k < es.len() ==> entry_complete(#[trigger] es[k])),
            None => r matches Err(e) && e matches RssParseError::Xml(_),
        },
{
    let v = scan::chars_of(xml);
    let item_pat = scan::chars_of("item");
    let title_pat = scan::chars_of("title");
    let link_pat = scan::chars_of("link");
    let description_pat = scan::chars_of("description");
    let pubdate_pat = scan::chars_of("pubDate");
    let creator_pat = scan::chars_of("creator");
    let category_pat = scan::chars_of("category");
    let mut i: usize = 0;
    let mut in_item = false;
    let mut cur = new_entry();
    let mut acc: Vec<RawEntry> = Vec::new();
    proof {
        assert(entries_view(acc@) =~= Seq::<EntryModel>::empty());
    }
    loop
        invariant
            i <= v@.len(),
            v@ == xml@,
            item_pat@ == item_tag(),
            title_pat@ == title_tag(),
            link_pat@ == link_tag(),
            description_pat@ == description_tag(),
            pubdate_pat@ == pubdate_tag(),
            creator_pat@ == creator_tag(),
            category_pat@ == category_tag(),
            spec_scan_entries(v@, i as int, in_item, cur@, entries_view(acc@)) == spec_parse_raw(
                xml@,
            ),
            forall|k: int|
                0 <= k < acc@.len() ==> entry_complete(#[trigger] entries_view(acc@)[k]),
        decreases v@.len() - i,
    {
        let t = token(&v, i);
        proof {
            lemma_token_progress(v@, i as int);
        }
        match t {
            Tok::Eof => {
                return Ok(acc);
            },
            Tok::Fail => {
                return Err(RssParseError::Xml(String::from_str("malformed XML token stream")));
            },
            Tok::Skip { end } => {
                i = end;
            },
            Tok::StartTag { name, attrs, self_closing, end } => {
                if self_closing {
                    i = end;
                } else if scan::chars_eq(&name, &item_pat) {
                    in_item = true;
                    cur = new_entry();
                    i = end;
                } else if in_item && (scan::chars_eq(&name, &title_pat) || scan::chars_eq(
                    &name,
                    &link_pat,
                ) || scan::chars_eq(&name, &description_pat) || scan::chars_eq(&name, &pubdate_pat)
                    || scan::chars_eq(&name, &creator_pat) || scan::chars_eq(
                    &name,
                    &category_pat,
                )) {
                    proof {
                        lemma_capture_progress(v@, end as int, end as int, name@, 0);
                    }
                    match capture_text(&v, end, &name) {
                        CapText::Fail => {
                            return Err(
                                RssParseError::Xml(
                                    String::from_str("malformed XML token stream"),
                                ),
                            );
                        },
                        CapText::Missing => {
                            i = v.len();
                        },
                        CapText::Found { text, end: after } => {
                            let ghost cur0 = cur@;
                            let text_str = scan::string_from_chars(&text);
                            if scan::chars_eq(&name, &title_pat) {
                                cur.title = Some(text_str);
                            } else if scan::chars_eq(&name, &link_pat) {
                                cur.link = Some(text_str);
                            } else if scan::chars_eq(&name, &description_pat) {
                                cur.description = Some(text_str);
                            } else if scan::chars_eq(&name, &pubdate_pat) {
                                cur.pubdate = Some(text_str);
                            } else if scan::chars_eq(&name, &creator_pat) {
                                let ghost cs0 = cur.creators@;
                                cur.creators.push(text_str);
                                proof {
                                    assert(cur.creators@.map_values(|s: String| s@)
                                        =~= cs0.map_values(|s: String| s@).push(text@));
                                }
                            } else {
                                let domain = domain_of_attrs(&attrs);
                                let ghost gs0 = cur.categories@;
                                cur.categories.push(RawCategory { domain, text: text_str });
                                proof {
                                    assert(cur.categories@.map_values(|c: RawCategory| c@)
                                        =~= gs0.map_values(|c: RawCategory| c@).push(
                                        cur.categories@.last()@,
                                    ));
                                }
                            }
                            proof {
                                assert(cur@ =~= update_entry(
                                    cur0,
                                    name@,
                                    text@,
                                    attrs_view(attrs@),
                                ));
                            }
                            i = after;
                        },
                    }
                } else {
                    i = end;
                }
            },
            Tok::EndTag { name, end } => {
                if in_item && scan::chars_eq(&name, &item_pat) {
                    in_item = false;
                    let complete = cur.title.is_some() && cur.link.is_some()
                        && cur.pubdate.is_some();
                    let ghost acc0 = acc@;
                    if complete {
                        acc.push(cur);
                        proof {
                            assert(entries_view(acc@) =~= entries_view(acc0).push(
                                acc@.last()@,
                            ));
                        }
                    }
                    cur = new_entry();
                    i = end;
                } else {
                    i = end;
                }
            },
        }
    }
}

} // verus!

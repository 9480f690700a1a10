//! Character-level scanning primitives shared by the XML tokenizer and the
//! text utilities: first-index searches, pattern matching, and conversions
//! between `&str`, `Vec<char>` and `String`.

use vstd::prelude::*;
use vstd::slice::{slice_subrange, slice_to_vec};

verus! {

/// XML whitespace.
pub open spec fn is_ws(c: char) -> bool {
    c == ' ' || c == '\t' || c == '\n' || c == '\r'
}

/// A character that ends a tag name or an unquoted attribute value.
pub open spec fn is_tag_delim(c: char) -> bool {
    is_ws(c) || c == '>' || c == '/'
}

/// A character that ends an attribute name.
pub open spec fn is_attr_delim(c: char) -> bool {
    is_ws(c) || c == '>' || c == '/' || c == '='
}

/// First index `j >= i` with `s[j] == c`, or `s.len()` if there is none.
pub open spec fn spec_find_char(s: Seq<char>, i: int, c: char) -> int
    decreases s.len() - i,
{
    if i < 0 || i >= s.len() {
        s.len() as int
    } else if s[i] == c {
        i
    } else {
        spec_find_char(s, i + 1, c)
    }
}

pub proof fn lemma_find_char(s: Seq<char>, i: int, c: char)
    requires
        0 <= i <= s.len(),
    ensures
        i <= spec_find_char(s, i, c) <= s.len(),
        forall|k: int| i <= k < spec_find_char(s, i, c) ==> s[k] != c,
        spec_find_char(s, i, c) < s.len() ==> s[spec_find_char(s, i, c)] == c,
    decreases s.len() - i,
{
    if i < s.len() && s[i] != c {
        lemma_find_char(s, i + 1, c);
    }
}

/// First index `j >= i` whose character is not whitespace, or `s.len()`.
pub open spec fn spec_skip_ws(s: Seq<char>, i: int) -> int
    decreases s.len() - i,
{
    if i < 0 || i >= s.len() {
        s.len() as int
    } else if is_ws(s[i]) {
        spec_skip_ws(s, i + 1)
    } else {
        i
    }
}

pub proof fn lemma_skip_ws(s: Seq<char>, i: int)
    requires
        0 <= i <= s.len(),
    ensures
        i <= spec_skip_ws(s, i) <= s.len(),
        spec_skip_ws(s, i) < s.len() ==> !is_ws(s[spec_skip_ws(s, i)]),
    decreases s.len() - i,
{
    if i < s.len() && is_ws(s[i]) {
        lemma_skip_ws(s, i + 1);
    }
}

/// First index `j >= i` whose character ends a tag name, or `s.len()`.
pub open spec fn spec_tag_delim_from(s: Seq<char>, i: int) -> int
    decreases s.len() - i,
{
    if i < 0 || i >= s.len() {
        s.len() as int
    } else if is_tag_delim(s[i]) {
        i
    } else {
        spec_tag_delim_from(s, i + 1)
    }
}

pub proof fn lemma_tag_delim_from(s: Seq<char>, i: int)
    requires
        0 <= i <= s.len(),
    ensures
        i <= spec_tag_delim_from(s, i) <= s.len(),
        spec_tag_delim_from(s, i) < s.len() ==> is_tag_delim(s[spec_tag_delim_from(s, i)]),
    decreases s.len() - i,
{
    if i < s.len() && !is_tag_delim(s[i]) {
        lemma_tag_delim_from(s, i + 1);
    }
}

/// First index `j >= i` whose character ends an attribute name, or `s.len()`.
pub open spec fn spec_attr_delim_from(s: Seq<char>, i: int) -> int
    decreases s.len() - i,
{
    if i < 0 || i >= s.len() {
        s.len() as int
    } else if is_attr_delim(s[i]) {
        i
    } else {
        spec_attr_delim_from(s, i + 1)
    }
}

pub proof fn lemma_attr_delim_from(s: Seq<char>, i: int)
    requires
        0 <= i <= s.len(),
    ensures
        i <= spec_attr_delim_from(s, i) <= s.len(),
        spec_attr_delim_from(s, i) < s.len() ==> is_attr_delim(s[spec_attr_delim_from(s, i)]),
    decreases s.len() - i,
{
    if i < s.len() && !is_attr_delim(s[i]) {
        lemma_attr_delim_from(s, i + 1);
    }
}

/// The pattern `pat` occurs in `s` starting at index `i`.
pub open spec fn spec_match_at(s: Seq<char>, i: int, pat: Seq<char>) -> bool {
    &&& 0 <= i
    &&& i + pat.len() <= s.len()
    &&& forall|k: int| 0 <= k < pat.len() ==> s[i + k] == pat[k]
}

/// First index `j >= i` where `pat` occurs, or `s.len()` if it never does.
pub open spec fn spec_find_pat(s: Seq<char>, i: int, pat: Seq<char>) -> int
    decreases s.len() - i,
{
    if i < 0 || i >= s.len() {
        s.len() as int
    } else if spec_match_at(s, i, pat) {
        i
    } else {
        spec_find_pat(s, i + 1, pat)
    }
}

pub proof fn lemma_find_pat(s: Seq<char>, i: int, pat: Seq<char>)
    requires
        0 <= i <= s.len(),
    ensures
        i <= spec_find_pat(s, i, pat) <= s.len(),
        spec_find_pat(s, i, pat) < s.len() ==> spec_match_at(s, spec_find_pat(s, i, pat), pat),
    decreases s.len() - i,
{
    if i < s.len() && !spec_match_at(s, i, pat) {
        lemma_find_pat(s, i + 1, pat);
    }
}

/// Largest `j <= hi` such that `s[j-1]` exists and is not whitespace, or 0.
/// This is where right-trimming `s[..hi]` ends.
pub open spec fn spec_rtrim_end(s: Seq<char>, hi: int) -> int
    decreases hi,
{
    if hi <= 0 || hi > s.len() {
        0
    } else if is_ws(s[hi - 1]) {
        spec_rtrim_end(s, hi - 1)
    } else {
        hi
    }
}

pub proof fn lemma_rtrim_end(s: Seq<char>, hi: int)
    requires
        0 <= hi <= s.len(),
    ensures
        0 <= spec_rtrim_end(s, hi) <= hi,
        spec_rtrim_end(s, hi) > 0 ==> !is_ws(s[spec_rtrim_end(s, hi) - 1]),
    decreases hi,
{
    if 0 < hi && is_ws(s[hi - 1]) {
        lemma_rtrim_end(s, hi - 1);
    }
}

pub fn ws_char(c: char) -> (r: bool)
    ensures
        r == is_ws(c),
{
    c == ' ' || c == '\t' || c == '\n' || c == '\r'
}

pub fn find_char(v: &Vec<char>, i: usize, c: char) -> (r: usize)
    requires
        i <= v@.len(),
    ensures
        r as int == spec_find_char(v@, i as int, c),
{
    let mut j = i;
    loop
        invariant
            i <= j <= v@.len(),
            spec_find_char(v@, i as int, c) == spec_find_char(v@, j as int, c),
        decreases v@.len() - j,
    {
        if j == v.len() {
            return j;
        }
        if v[j] == c {
            return j;
        }
        j = j + 1;
    }
}

pub fn skip_ws(v: &Vec<char>, i: usize) -> (r: usize)
    requires
        i <= v@.len(),
    ensures
        r as int == spec_skip_ws(v@, i as int),
{
    let mut j = i;
    loop
        invariant
            i <= j <= v@.len(),
            spec_skip_ws(v@, i as int) == spec_skip_ws(v@, j as int),
        decreases v@.len() - j,
    {
        if j == v.len() {
            return j;
        }
        if !ws_char(v[j]) {
            return j;
        }
        j = j + 1;
    }
}

pub fn tag_delim_from(v: &Vec<char>, i: usize) -> (r: usize)
    requires
        i <= v@.len(),
    ensures
        r as int == spec_tag_delim_from(v@, i as int),
{
    let mut j = i;
    loop
        invariant
            i <= j <= v@.len(),
            spec_tag_delim_from(v@, i as int) == spec_tag_delim_from(v@, j as int),
        decreases v@.len() - j,
    {
        if j == v.len() {
            return j;
        }
        let c = v[j];
        if ws_char(c) || c == '>' || c == '/' {
            return j;
        }
        j = j + 1;
    }
}

pub fn attr_delim_from(v: &Vec<char>, i: usize) -> (r: usize)
    requires
        i <= v@.len(),
    ensures
        r as int == spec_attr_delim_from(v@, i as int),
{
    let mut j = i;
    loop
        invariant
            i <= j <= v@.len(),
            spec_attr_delim_from(v@, i as int) == spec_attr_delim_from(v@, j as int),
        decreases v@.len() - j,
    {
        if j == v.len() {
            return j;
        }
        let c = v[j];
        if ws_char(c) || c == '>' || c == '/' || c == '=' {
            return j;
        }
        j = j + 1;
    }
}

pub fn match_at(v: &Vec<char>, i: usize, pat: &Vec<char>) -> (r: bool)
    requires
        i <= v@.len(),
    ensures
        r == spec_match_at(v@, i as int, pat@),
{
    if pat.len() > v.len() - i {
        return false;
    }
    let end = i + pat.len();
    let mut j = i;
    loop
        invariant
            i <= j <= end,
            end == i + pat@.len(),
            end <= v@.len(),
            forall|m: int| 0 <= m < j - i ==> v@[i + m] == pat@[m],
        decreases end - j,
    {
        if j == end {
            return true;
        }
        if v[j] != pat[j - i] {
            return false;
        }
        j = j + 1;
    }
}

pub fn find_pat(v: &Vec<char>, i: usize, pat: &Vec<char>) -> (r: usize)
    requires
        i <= v@.len(),
    ensures
        r as int == spec_find_pat(v@, i as int, pat@),
{
    let mut j = i;
    loop
        invariant
            i <= j <= v@.len(),
            spec_find_pat(v@, i as int, pat@) == spec_find_pat(v@, j as int, pat@),
        decreases v@.len() - j,
    {
        if j == v.len() {
            return j;
        }
        if match_at(v, j, pat) {
            return j;
        }
        j = j + 1;
    }
}

pub fn rtrim_end(v: &Vec<char>, hi: usize) -> (r: usize)
    requires
        hi <= v@.len(),
    ensures
        r as int == spec_rtrim_end(v@, hi as int),
{
    let mut j = hi;
    loop
        invariant
            0 <= j <= hi <= v@.len(),
            spec_rtrim_end(v@, hi as int) == spec_rtrim_end(v@, j as int),
        decreases j,
    {
        if j == 0 {
            return j;
        }
        if !ws_char(v[j - 1]) {
            return j;
        }
        j = j - 1;
    }
}

pub fn chars_eq(a: &Vec<char>, b: &Vec<char>) -> (r: bool)
    ensures
        r == (a@ == b@),
{
    if a.len() != b.len() {
        return false;
    }
    let mut k: usize = 0;
    loop
        invariant
            k <= a@.len(),
            a@.len() == b@.len(),
            forall|m: int| 0 <= m < k ==> a@[m] == b@[m],
        decreases a@.len() - k,
    {
        if k == a.len() {
            proof {
                assert(a@ =~= b@);
            }
            return true;
        }
        if a[k] != b[k] {
            return false;
        }
        k = k + 1;
    }
}

/// The characters of `s`, in order, as a vector.
pub fn chars_of(s: &str) -> (r: Vec<char>)
    ensures
        r@ == s@,
{
    let n = s.unicode_len();
    let mut v: Vec<char> = Vec::new();
    let mut k: usize = 0;
    while k < n
        invariant
            k <= n,
            n == s@.len(),
            v@ == s@.subrange(0, k as int),
        decreases n - k,
    {
        let c = s.get_char(k);
        v.push(c);
        proof {
            assert(v@ =~= s@.subrange(0, k + 1 as int));
        }
        k = k + 1;
    }
    proof {
        assert(s@.subrange(0, n as int) =~= s@);
    }
    v
}

/// Relies on `String: FromIterator<char>`: collecting characters yields the
/// string whose characters are exactly those collected, in order.
#[verifier::external_body]
pub fn string_from_chars(v: &Vec<char>) -> (r: String)
    ensures
        r@ == v@,
{
    v.iter().collect()
}

/// A copy of `v[i..j]`.
pub fn subvec(v: &Vec<char>, i: usize, j: usize) -> (r: Vec<char>)
    requires
        i <= j <= v@.len(),
    ensures
        r@ == v@.subrange(i as int, j as int),
{
    slice_to_vec(slice_subrange(v.as_slice(), i, j))
}

/// The string holding `v[i..j]`.
pub fn substring_of(v: &Vec<char>, i: usize, j: usize) -> (r: String)
    requires
        i <= j <= v@.len(),
    ensures
        r@ == v@.subrange(i as int, j as int),
{
    let sub = subvec(v, i, j);
    string_from_chars(&sub)
}

} // verus!

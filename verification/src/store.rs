//! The idempotent write path: a store of canonical items in which an item
//! is persisted only when its identifier is unseen, plus the read-only
//! aggregation counts. Re-inserting an existing identifier is the expected
//! steady-state outcome on re-poll, not an error.

use vstd::prelude::*;
use crate::rss::{ItemModel, RssItem};
use crate::scan;

verus! {

/// Some persisted item carries `id`.
pub open spec fn contains_id(s: Seq<ItemModel>, id: u128) -> bool {
    exists|k: int| 0 <= k < s.len() && s[k].id == id
}

/// How many persisted items carry `id`.
pub open spec fn count_id(s: Seq<ItemModel>, id: u128) -> int
    decreases s.len(),
{
    if s.len() == 0 {
        0
    } else {
        count_id(s.drop_last(), id) + if s.last().id == id {
            1int
        } else {
            0int
        }
    }
}

/// No two persisted items share an identifier.
pub open spec fn distinct_ids(s: Seq<ItemModel>) -> bool {
    forall|i: int, j: int| 0 <= i < j < s.len() ==> s[i].id != s[j].id
}

/// What one insert does: appends the item when its identifier is unseen
/// and reports `true`; otherwise leaves the store unchanged and reports
/// `false`.
pub open spec fn spec_insert_if_new(s: Seq<ItemModel>, m: ItemModel) -> (bool, Seq<ItemModel>) {
    if contains_id(s, m.id) {
        (false, s)
    } else {
        (true, s.push(m))
    }
}

/// How many persisted items have `published_at >= since`.
pub open spec fn count_since(s: Seq<ItemModel>, since: i64) -> int
    decreases s.len(),
{
    if s.len() == 0 {
        0
    } else {
        count_since(s.drop_last(), since) + if s.last().published_at >= since {
            1int
        } else {
            0int
        }
    }
}

/// How many persisted items carry `source`.
pub open spec fn count_for_source(s: Seq<ItemModel>, source: Seq<char>) -> int
    decreases s.len(),
{
    if s.len() == 0 {
        0
    } else {
        count_for_source(s.drop_last(), source) + if s.last().source == source {
            1int
        } else {
            0int
        }
    }
}

/// The store of persisted canonical items, in insertion order.
pub struct RssStore {
    items: Vec<RssItem>,
}

impl View for RssStore {
    type V = Seq<ItemModel>;

    closed spec fn view(&self) -> Seq<ItemModel> {
        self.items@.map_values(|it: RssItem| it@)
    }
}

impl RssStore {
    /// The store never holds two items with one identifier.
    pub open spec fn wf(&self) -> bool {
        distinct_ids(self@)
    }

    /// An empty store.
    pub fn new() -> (r: RssStore)
        ensures
            r@ == Seq::<ItemModel>::empty(),
            r.wf(),
    {
        let r = RssStore { items: Vec::new() };
        proof {
            assert(r@ =~= Seq::<ItemModel>::empty());
        }
        r
    }

    /// Persists `item` only when its identifier is unseen; reports whether
    /// the insert occurred. A conflict is not an error.
    pub fn insert_if_new(&mut self, item: RssItem) -> (r: bool)
        requires
            old(self).wf(),
        ensures
            final(self).wf(),
            r == spec_insert_if_new(old(self)@, item@).0,
            final(self)@ == spec_insert_if_new(old(self)@, item@).1,
    {
        let n = self.items.len();
        let mut k: usize = 0;
        while k < n
            invariant
                old(self).wf(),
                self == old(self),
                n == self.items@.len(),
                k <= n,
                forall|j: int| 0 <= j < k ==> self@[j].id != item@.id,
            decreases n - k,
        {
            if self.items[k].id == item.id {
                proof {
                    assert(self@[k as int].id == item@.id);
                    assert(contains_id(self@, item@.id));
                }
                return false;
            }
            k = k + 1;
        }
        proof {
            assert(!contains_id(self@, item@.id));
        }
        let ghost s0 = self@;
        self.items.push(item);
        proof {
            assert(self@ =~= s0.push(item@));
        }
        true
    }

    /// How many items are persisted.
    pub fn count_total_rss_items(&self) -> (n: usize)
        ensures
            n == self@.len(),
    {
        self.items.len()
    }

    /// How many persisted items were published at or after `since_ts`; the
    /// caller supplies the day boundary.
    pub fn count_daily_rss_items(&self, since_ts: i64) -> (n: usize)
        ensures
            n == count_since(self@, since_ts),
    {
        let mut n: usize = 0;
        let mut k: usize = 0;
        proof {
            assert(self@.subrange(0, 0) =~= Seq::<ItemModel>::empty());
        }
        while k < self.items.len()
            invariant
                k <= self.items@.len(),
                self.items@.len() == self@.len(),
                n <= k,
                n == count_since(self@.subrange(0, k as int), since_ts),
            decreases self.items@.len() - k,
        {
            let ghost prefix0 = self@.subrange(0, k as int);
            if self.items[k].published_at >= since_ts {
                n = n + 1;
            }
            k = k + 1;
            proof {
                let prefix1 = self@.subrange(0, k as int);
                assert(prefix1.drop_last() =~= prefix0);
                assert(prefix1.last() == self@[k - 1]);
            }
        }
        proof {
            assert(self@.subrange(0, self@.len() as int) =~= self@);
        }
        n
    }

    /// How many persisted items carry exactly the source `source`.
    pub fn count_source_rss_items(&self, source: &str) -> (n: usize)
        ensures
            n == count_for_source(self@, source@),
    {
        let source_chars = scan::chars_of(source);
        let mut n: usize = 0;
        let mut k: usize = 0;
        proof {
            assert(self@.subrange(0, 0) =~= Seq::<ItemModel>::empty());
        }
        while k < self.items.len()
            invariant
                k <= self.items@.len(),
                self.items@.len() == self@.len(),
                n <= k,
                source_chars@ == source@,
                n == count_for_source(self@.subrange(0, k as int), source@),
            decreases self.items@.len() - k,
        {
            let ghost prefix0 = self@.subrange(0, k as int);
            let item_source = scan::chars_of(self.items[k].source.as_str());
            if scan::chars_eq(&item_source, &source_chars) {
                n = n + 1;
            }
            k = k + 1;
            proof {
                let prefix1 = self@.subrange(0, k as int);
                assert(prefix1.drop_last() =~= prefix0);
                assert(prefix1.last() == self@[k - 1]);
            }
        }
        proof {
            assert(self@.subrange(0, self@.len() as int) =~= self@);
        }
        n
    }
}

/// An absent identifier is counted zero times.
proof fn lemma_count_id_absent(s: Seq<ItemModel>, id: u128)
    requires
        !contains_id(s, id),
    ensures
        count_id(s, id) == 0,
    decreases s.len(),
{
    if s.len() > 0 {
        assert(!contains_id(s.drop_last(), id)) by {
            assert(forall|k: int|
                0 <= k < s.len() - 1 ==> s.drop_last()[k] == s[k]);
        }
        lemma_count_id_absent(s.drop_last(), id);
    }
}

/// Under distinct identifiers, a present identifier is counted exactly
/// once.
proof fn lemma_count_id_present(s: Seq<ItemModel>, id: u128)
    requires
        distinct_ids(s),
        contains_id(s, id),
    ensures
        count_id(s, id) == 1,
    decreases s.len(),
{
    if s.len() > 0 {
        if s.last().id == id {
            assert(!contains_id(s.drop_last(), id)) by {
                assert(forall|k: int|
                    0 <= k < s.len() - 1 ==> s.drop_last()[k] == s[k]);
            }
            lemma_count_id_absent(s.drop_last(), id);
        } else {
            let k = choose|k: int| 0 <= k < s.len() && s[k].id == id;
            assert(s.drop_last()[k] == s[k]);
            lemma_count_id_present(s.drop_last(), id);
        }
    }
}

/// Inserting never breaks identifier distinctness.
pub proof fn lemma_insert_preserves_distinct(s: Seq<ItemModel>, m: ItemModel)
    requires
        distinct_ids(s),
    ensures
        distinct_ids(spec_insert_if_new(s, m).1),
{
    if !contains_id(s, m.id) {
        let s1 = s.push(m);
        assert forall|i: int, j: int| 0 <= i < j < s1.len() implies s1[i].id != s1[j].id by {
            if j == s.len() {
                assert(s1[i] == s[i]);
            }
        }
    }
}

/// Idempotence of the write path: inserting the same item twice persists
/// it once and reports `true` then `false`; the store then holds exactly
/// one row with that identifier.
pub proof fn lemma_insert_idempotent(s: Seq<ItemModel>, m: ItemModel)
    requires
        distinct_ids(s),
        !contains_id(s, m.id),
    ensures
        ({
            let (r1, s1) = spec_insert_if_new(s, m);
            let (r2, s2) = spec_insert_if_new(s1, m);
            &&& r1
            &&& !r2
            &&& s2 == s1
            &&& count_id(s2, m.id) == 1
        }),
{
    let (r1, s1) = spec_insert_if_new(s, m);
    assert(contains_id(s1, m.id)) by {
        assert(s1[s.len() as int].id == m.id);
    }
    lemma_insert_preserves_distinct(s, m);
    lemma_count_id_present(s1, m.id);
}

} // verus!

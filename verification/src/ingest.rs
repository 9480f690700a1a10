//! The ingestion orchestrator's decision logic and the scheduler's state
//! machine. Fetching runs outside this library: the orchestrator takes the
//! fetched body (or transport error) of every configured source and decides
//! what is parsed, what is written and what is reported. The policy is
//! best-effort: one source's failure never blocks the others; failures are
//! collected per source and surfaced together.

use vstd::prelude::*;
use crate::error::{RssIngestionError, RssParseError};
use crate::rss::{self, ItemModel, RssItem};
use crate::rss::bloomberg::BloombergRssParser;
use crate::rss::coindesk::CoindeskRssParser;
use crate::rss::reuters::ReutersRssParser;
use crate::store::{self, RssStore};

verus! {

/// The provider dialect a source speaks.
#[derive(Clone, Copy, PartialEq, Eq, Structural, Debug)]
pub enum Dialect {
    Bloomberg,
    Coindesk,
    Reuters,
}

/// The fixed source label a dialect's parser tags items with, before the
/// orchestrator overrides it with the feed's configured name.
pub open spec fn dialect_label(d: Dialect) -> Seq<char> {
    match d {
        Dialect::Bloomberg => "bloomberg"@,
        Dialect::Coindesk => "coindesk"@,
        Dialect::Reuters => "reuters"@,
    }
}

/// The model of one configured feed source.
#[verifier::ext_equal]
pub ghost struct FeedSourceModel {
    pub name: Seq<char>,
    pub url: Seq<char>,
    pub dialect: Dialect,
    pub active: bool,
}

/// One configured feed source. An inactive source is still fetched and
/// parsed (dry validation of its markup) but none of its items reach the
/// store.
#[derive(Debug)]
pub struct FeedSource {
    pub name: String,
    pub url: String,
    pub dialect: Dialect,
    pub active: bool,
}

impl View for FeedSource {
    type V = FeedSourceModel;

    open spec fn view(&self) -> FeedSourceModel {
        FeedSourceModel {
            name: self.name@,
            url: self.url@,
            dialect: self.dialect,
            active: self.active,
        }
    }
}

/// The source sequence a vector of sources stands for.
pub open spec fn sources_view(ss: Seq<FeedSource>) -> Seq<FeedSourceModel> {
    ss.map_values(|s: FeedSource| s@)
}

/// The body sequence a vector of fetch outcomes stands for.
pub open spec fn bodies_view(bs: Seq<Result<String, String>>) -> Seq<Result<Seq<char>, Seq<char>>> {
    bs.map_values(
        |b: Result<String, String>|
            match b {
                Ok(s) => Ok(s@),
                Err(e) => Err(e@),
            },
    )
}

/// One source's failure in a run.
#[derive(Debug)]
pub struct FeedFailure {
    pub source_name: String,
    pub error: RssIngestionError,
}

/// The model of one source's failure: a transport error with its detail,
/// or a structural parse error.
pub ghost enum FailureModel {
    Network { source: Seq<char>, detail: Seq<char> },
    Parse { source: Seq<char> },
}

/// The failure a collected entry stands for.
pub open spec fn failure_model(f: FeedFailure) -> FailureModel {
    match f.error {
        RssIngestionError::Network(d) => FailureModel::Network {
            source: f.source_name@,
            detail: d@,
        },
        _ => FailureModel::Parse { source: f.source_name@ },
    }
}

/// The orchestrator only ever collects transport failures and structural
/// parse failures.
pub open spec fn failure_shape_ok(f: FeedFailure) -> bool {
    match f.error {
        RssIngestionError::Network(_) => true,
        RssIngestionError::Parse(pe) => pe matches RssParseError::Xml(_),
        _ => false,
    }
}

/// The orchestrator's override of the parser's fixed label: the item keyed
/// anew under the feed's configured name, identity recomputed from it.
pub open spec fn relabel(m: ItemModel, name: Seq<char>) -> ItemModel {
    ItemModel {
        id: rss::spec_item_id(name, m.title, m.published_at),
        source: name,
        title: m.title,
        link: m.link,
        summary: m.summary,
        published_at: m.published_at,
    }
}

/// Writes a feed's items in parse order, each only if its identifier is
/// unseen.
pub open spec fn spec_insert_all(store: Seq<ItemModel>, ms: Seq<ItemModel>) -> Seq<ItemModel>
    decreases ms.len(),
{
    if ms.len() == 0 {
        store
    } else {
        spec_insert_all(store::spec_insert_if_new(store, ms[0]).1, ms.skip(1))
    }
}

/// What one best-effort run does from source `i` on: per source, a
/// transport error or a structural parse error becomes one collected
/// failure naming that source; a parsed feed's items are written (only if
/// the source is active) under the feed's configured name. The resulting
/// store and the collected failures, in source order.
pub open spec fn spec_run_from(
    ss: Seq<FeedSourceModel>,
    bs: Seq<Result<Seq<char>, Seq<char>>>,
    now: i64,
    i: int,
    store: Seq<ItemModel>,
) -> (Seq<ItemModel>, Seq<FailureModel>)
    decreases ss.len() - i,
{
    if i < 0 || i >= ss.len() {
        (store, Seq::empty())
    } else {
        let src = ss[i];
        match bs[i] {
            Err(msg) => {
                let rest = spec_run_from(ss, bs, now, i + 1, store);
                (rest.0, seq![FailureModel::Network { source: src.name, detail: msg }] + rest.1)
            },
            Ok(body) => match rss::spec_parse_feed(body, dialect_label(src.dialect), now) {
                None => {
                    let rest = spec_run_from(ss, bs, now, i + 1, store);
                    (rest.0, seq![FailureModel::Parse { source: src.name }] + rest.1)
                },
                Some(ms) => {
                    let store1 = if src.active {
                        spec_insert_all(
                            store,
                            ms.map_values(|m: ItemModel| relabel(m, src.name)),
                        )
                    } else {
                        store
                    };
                    spec_run_from(ss, bs, now, i + 1, store1)
                },
            },
        }
    }
}

/// A run over inactive sources alone writes nothing, whatever their feeds
/// hold: fetched and parsed, their items are discarded before the writer.
pub proof fn lemma_inactive_sources_no_writes(
    ss: Seq<FeedSourceModel>,
    bs: Seq<Result<Seq<char>, Seq<char>>>,
    now: i64,
    i: int,
    store: Seq<ItemModel>,
)
    requires
        forall|k: int| 0 <= k < ss.len() ==> !(#[trigger] ss[k]).active,
    ensures
        spec_run_from(ss, bs, now, i, store).0 == store,
    decreases ss.len() - i,
{
    if 0 <= i < ss.len() {
        lemma_inactive_sources_no_writes(ss, bs, now, i + 1, store);
    }
}

/// Writes one parsed feed's items, in parse order, under the feed's
/// configured name.
fn insert_relabeled(store: &mut RssStore, items: &Vec<RssItem>, name: &String)
    requires
        old(store).wf(),
    ensures
        final(store).wf(),
        final(store)@ == spec_insert_all(
            old(store)@,
            rss::items_view(items@).map_values(|m: ItemModel| relabel(m, name@)),
        ),
{
    let ghost relabeled = rss::items_view(items@).map_values(|m: ItemModel| relabel(m, name@));
    let ghost target = spec_insert_all(old(store)@, relabeled);
    proof {
        assert(relabeled.skip(0) =~= relabeled);
    }
    let mut j: usize = 0;
    while j < items.len()
        invariant
            j <= items@.len(),
            store.wf(),
            relabeled == rss::items_view(items@).map_values(|m: ItemModel| relabel(m, name@)),
            relabeled.len() == items@.len(),
            target == spec_insert_all(store@, relabeled.skip(j as int)),
        decreases items@.len() - j,
    {
        let it = &items[j];
        let summary = match &it.summary {
            Some(s) => Some(s.clone()),
            None => None,
        };
        let it2 = RssItem::new(
            name.clone(),
            it.title.clone(),
            it.link.clone(),
            summary,
            Some(it.published_at),
        );
        proof {
            assert(relabeled[j as int] == relabel(rss::items_view(items@)[j as int], name@));
            assert(it2@ =~= relabel(items@[j as int]@, name@));
        }
        let ghost s_before = store@;
        let _inserted = store.insert_if_new(it2);
        j = j + 1;
        proof {
            assert(relabeled.skip(j - 1)[0] == relabeled[j - 1]);
            assert(relabeled.skip(j - 1).skip(1) =~= relabeled.skip(j as int));
        }
    }
    proof {
        assert(relabeled.skip(items@.len() as int) =~= Seq::<ItemModel>::empty());
    }
}

/// The grown failure list still accounts for the same run: pushing the
/// failure that heads the remainder moves it from the remainder to the
/// collected prefix.
proof fn lemma_fail_push(fails0: Seq<FeedFailure>, fails1: Seq<FeedFailure>, rest: Seq<FailureModel>)
    requires
        fails1 == fails0.push(fails1.last()),
    ensures
        fails0.map_values(|f: FeedFailure| failure_model(f)) + (seq![
            failure_model(fails1.last()),
        ] + rest) == fails1.map_values(|f: FeedFailure| failure_model(f)) + rest,
{
    assert(fails1.map_values(|f: FeedFailure| failure_model(f)) =~= fails0.map_values(
        |f: FeedFailure| failure_model(f),
    ).push(failure_model(fails1.last())));
    assert(fails0.map_values(|f: FeedFailure| failure_model(f)) + (seq![
        failure_model(fails1.last()),
    ] + rest) =~= fails1.map_values(|f: FeedFailure| failure_model(f)) + rest);
}

impl FeedSource {
    /// The parser bound to this source's dialect, run on a fetched body,
    /// with `now_ts` as the fallback for unparsable dates.
    pub fn parse_body(&self, body: &str, now_ts: i64) -> (r: Result<Vec<RssItem>, RssParseError>)
        ensures
            rss::parse_result_ok(body@, dialect_label(self.dialect), now_ts, r),
    {
        match self.dialect {
            Dialect::Bloomberg => (BloombergRssParser).parse_with_now(body, now_ts),
            Dialect::Coindesk => (CoindeskRssParser).parse_with_now(body, now_ts),
            Dialect::Reuters => (ReutersRssParser).parse_with_now(body, now_ts),
        }
    }
}

/// One best-effort run over every configured source, on bodies already
/// fetched (one per source, in order: the body text, or the transport
/// error's detail). Items of active sources that fetched and parsed are
/// all durably in the store afterwards, whatever happened to other
/// sources; failures come back together, one per failed source, in source
/// order, each naming its source. `Ok` exactly when no source failed.
pub fn fetch_all_and_insert(
    sources: &Vec<FeedSource>,
    bodies: &Vec<Result<String, String>>,
    now_ts: i64,
    store: &mut RssStore,
) -> (r: Result<(), Vec<FeedFailure>>)
    requires
        old(store).wf(),
        bodies@.len() == sources@.len(),
    ensures
        final(store).wf(),
        final(store)@ == spec_run_from(
            sources_view(sources@),
            bodies_view(bodies@),
            now_ts,
            0,
            old(store)@,
        ).0,
        match r {
            Ok(_) => spec_run_from(
                sources_view(sources@),
                bodies_view(bodies@),
                now_ts,
                0,
                old(store)@,
            ).1.len() == 0,
            Err(fs) => {
                &&& fs@.len() > 0
                &&& fs@.map_values(|f: FeedFailure| failure_model(f)) == spec_run_from(
                    sources_view(sources@),
                    bodies_view(bodies@),
                    now_ts,
                    0,
                    old(store)@,
                ).1
                &&& forall|j: int| 0 <= j < fs@.len() ==> failure_shape_ok(#[trigger] fs@[j])
            },
        },
{
    let ghost sv = sources_view(sources@);
    let ghost bv = bodies_view(bodies@);
    let ghost s0 = old(store)@;
    let mut fails: Vec<FeedFailure> = Vec::new();
    let mut k: usize = 0;
    proof {
        assert(fails@.map_values(|f: FeedFailure| failure_model(f))
            =~= Seq::<FailureModel>::empty());
        assert(Seq::<FailureModel>::empty() + spec_run_from(sv, bv, now_ts, 0, s0).1
            =~= spec_run_from(sv, bv, now_ts, 0, s0).1);
    }
    while k < sources.len()
        invariant
            k <= sources@.len(),
            bodies@.len() == sources@.len(),
            sv == sources_view(sources@),
            bv == bodies_view(bodies@),
            store.wf(),
            spec_run_from(sv, bv, now_ts, k as int, store@).0 == spec_run_from(
                sv,
                bv,
                now_ts,
                0,
                s0,
            ).0,
            spec_run_from(sv, bv, now_ts, 0, s0).1 == fails@.map_values(
                |f: FeedFailure| failure_model(f),
            ) + spec_run_from(sv, bv, now_ts, k as int, store@).1,
            forall|j: int| 0 <= j < fails@.len() ==> failure_shape_ok(#[trigger] fails@[j]),
        decreases sources@.len() - k,
    {
        proof {
            assert(sv[k as int] == sources@[k as int]@);
        }
        match &bodies[k] {
            Err(msg) => {
                proof {
                    assert(bv[k as int] == Err::<Seq<char>, Seq<char>>(msg@));
                }
                let f = FeedFailure {
                    source_name: sources[k].name.clone(),
                    error: RssIngestionError::Network(msg.clone()),
                };
                let ghost fails0 = fails@;
                let ghost rest = spec_run_from(sv, bv, now_ts, k + 1, store@).1;
                fails.push(f);
                k = k + 1;
                proof {
                    assert(failure_model(fails@.last()) == (FailureModel::Network {
                        source: sv[k - 1].name,
                        detail: msg@,
                    }));
                    lemma_fail_push(fails0, fails@, rest);
                }
            },
            Ok(body) => {
                proof {
                    assert(bv[k as int] == Ok::<Seq<char>, Seq<char>>(body@));
                }
                let parsed = sources[k].parse_body(body.as_str(), now_ts);
                match parsed {
                    Err(e) => {
                        let f = FeedFailure {
                            source_name: sources[k].name.clone(),
                            error: RssIngestionError::Parse(e),
                        };
                        let ghost fails0 = fails@;
                        let ghost rest = spec_run_from(sv, bv, now_ts, k + 1, store@).1;
                        fails.push(f);
                        k = k + 1;
                        proof {
                            assert(failure_model(fails@.last()) == (FailureModel::Parse {
                                source: sv[k - 1].name,
                            }));
                            lemma_fail_push(fails0, fails@, rest);
                        }
                    },
                    Ok(items) => {
                        let ghost ms = rss::spec_parse_feed(
                            body@,
                            dialect_label(sv[k as int].dialect),
                            now_ts,
                        ).unwrap();
                        proof {
                            assert(rss::items_view(items@) == ms);
                        }
                        if sources[k].active {
                            insert_relabeled(store, &items, &sources[k].name);
                            proof {
                                assert(rss::items_view(items@).map_values(
                                    |m: ItemModel| relabel(m, sources@[k as int].name@),
                                ) == ms.map_values(|m: ItemModel| relabel(m, sv[k as int].name)));
                            }
                        }
                        k = k + 1;
                    },
                }
            },
        }
    }
    proof {
        assert(spec_run_from(sv, bv, now_ts, k as int, store@).1 =~= Seq::<FailureModel>::empty());
        assert(fails@.map_values(|f: FeedFailure| failure_model(f))
            + Seq::<FailureModel>::empty() =~= fails@.map_values(
            |f: FeedFailure| failure_model(f),
        ));
    }
    if fails.len() == 0 {
        Ok(())
    } else {
        Err(fails)
    }
}

/// The scheduler's externally visible states: waiting for the next tick,
/// or stopped for good.
#[derive(Clone, Copy, PartialEq, Eq, Structural, Debug)]
pub enum SchedulerState {
    Idle,
    Stopped,
}

/// What can wake the scheduler: the periodic tick, or the external
/// cancellation signal. The two waits race; whichever resolves first wins.
#[derive(Clone, Copy, PartialEq, Eq, Structural, Debug)]
pub enum SchedulerEvent {
    Tick,
    CancelSignal,
}

/// What the driving loop must do next.
#[derive(Clone, Copy, PartialEq, Eq, Structural, Debug)]
pub enum SchedulerAction {
    RunIngestion,
    NoAction,
}

/// The scheduler's transition function: a tick while idle triggers one
/// ingestion run (one in flight at a time: the loop awaits the run before
/// the next event); cancellation stops the scheduler for good, after the
/// in-flight run finishes. Run failures are events of the run itself, not
/// of the scheduler: they never change its state.
pub open spec fn spec_scheduler_step(st: SchedulerState, ev: SchedulerEvent) -> (
    SchedulerState,
    SchedulerAction,
) {
    match (st, ev) {
        (SchedulerState::Idle, SchedulerEvent::Tick) => (
            SchedulerState::Idle,
            SchedulerAction::RunIngestion,
        ),
        (SchedulerState::Idle, SchedulerEvent::CancelSignal) => (
            SchedulerState::Stopped,
            SchedulerAction::NoAction,
        ),
        (SchedulerState::Stopped, _) => (SchedulerState::Stopped, SchedulerAction::NoAction),
    }
}

/// One scheduler step.
pub fn scheduler_step(st: SchedulerState, ev: SchedulerEvent) -> (r: (
    SchedulerState,
    SchedulerAction,
))
    ensures
        r == spec_scheduler_step(st, ev),
{
    match (st, ev) {
        (SchedulerState::Idle, SchedulerEvent::Tick) => (
            SchedulerState::Idle,
            SchedulerAction::RunIngestion,
        ),
        (SchedulerState::Idle, SchedulerEvent::CancelSignal) => (
            SchedulerState::Stopped,
            SchedulerAction::NoAction,
        ),
        (SchedulerState::Stopped, _) => (SchedulerState::Stopped, SchedulerAction::NoAction),
    }
}

/// Once stopped, the scheduler stays stopped and never runs ingestion
/// again, whatever events arrive.
pub proof fn lemma_stopped_is_final(ev: SchedulerEvent)
    ensures
        spec_scheduler_step(SchedulerState::Stopped, ev).0 == SchedulerState::Stopped,
        spec_scheduler_step(SchedulerState::Stopped, ev).1 != SchedulerAction::RunIngestion,
{
}

} // verus!

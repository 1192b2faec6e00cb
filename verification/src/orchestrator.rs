//! The fetch orchestrator: one exchange-run as a state machine.
//!
//! The run proceeds `ListingMarkets -> Fetching -> Persisting -> Done`,
//! with `Failed` reachable from any step. Per-market fetches are handed
//! out up to a concurrency cap and may complete in any order; every
//! completed fetch contributes one batch of rows tagged with its market.
//! Because batches of distinct markets are key-disjoint, the final
//! persisted table does not depend on the completion order — proved here
//! on top of the store model.

use vstd::prelude::*;

use crate::model::{MarketRef, NormalizedFundingRate, SyncError};
use crate::store::{
    batch_market, batches_key_disjoint, insert_batches, insert_rows_map,
    lemma_insert_batches_any_order, lemma_insert_rows_append, lemma_per_market_batches_disjoint,
    FundingRow,
};
use crate::time_windows::{resolved_window, TimeSpec};

verus! {

/// The fixed funding-poll cadence every exchange is normalized to, in
/// minutes.
pub const FUNDING_INTERVAL_MINUTES: i32 = 480;

/// The tunables of one sync run: the bound on simultaneously in-flight
/// per-market fetches, and the storage write chunk size.
#[derive(Clone, Copy, Debug)]
pub struct SyncConfig {
    pub concurrency: usize,
    pub chunk_size: usize,
}

/// The documented defaults: 16 in-flight fetches, 20,000 rows per chunk.
pub fn default_sync_config() -> (r: SyncConfig)
    ensures
        r.concurrency == 16,
        r.chunk_size == 20000,
{
    SyncConfig { concurrency: 16, chunk_size: 20000 }
}

/// An exchange row as this engine sees it: identity, name, and the
/// configured funding-poll interval.
#[derive(Clone, Debug)]
pub struct ExchangeMeta {
    pub id: i32,
    pub name: String,
    pub funding_interval_minutes: Option<i32>,
}

impl ExchangeMeta {
    /// Idempotently pin the funding-poll interval to the fixed cadence.
    /// Reports whether anything changed, so that an unchanged row costs no
    /// write; repeating the call changes nothing further.
    pub fn normalize_funding_interval(&mut self) -> (changed: bool)
        ensures
            final(self).funding_interval_minutes == Some(FUNDING_INTERVAL_MINUTES),
            final(self).id == old(self).id,
            final(self).name == old(self).name,
            changed == (old(self).funding_interval_minutes != Some(FUNDING_INTERVAL_MINUTES)),
    {
        let changed = match self.funding_interval_minutes {
            Some(m) => m != FUNDING_INTERVAL_MINUTES,
            None => true,
        };
        if changed {
            self.funding_interval_minutes = Some(FUNDING_INTERVAL_MINUTES);
        }
        changed
    }
}

/// Where an exchange-run stands.
#[derive(Clone, Copy, Debug, PartialEq, Eq, Structural)]
pub enum SyncPhase {
    ListingMarkets,
    Fetching,
    Persisting,
    Done,
    Failed,
}

/// One funding-sync run for one exchange.
///
/// After the market set is listed, `next_task` hands out one market at a
/// time while fewer than `cap` fetches are in flight; each task finishes
/// through `complete_fetch` (rows tagged with the market) or
/// `complete_skip` (an inverted window: zero rows, not an error). When
/// all tasks are done, `collect` aggregates the batches for persistence.
pub struct FundingSession {
    pub exchange_id: i32,
    pub time_spec: TimeSpec,
    pub now_ms: u64,
    pub markets: Vec<MarketRef>,
    pub dispatched: usize,
    pub in_flight: usize,
    pub done: Vec<bool>,
    pub batches: Vec<Vec<FundingRow>>,
    pub batch_index: Ghost<Seq<int>>,
    pub phase: SyncPhase,
}

impl FundingSession {
    /// The session invariant: the dispatch cursor and completion records
    /// are consistent, every batch belongs to a distinct completed
    /// market, and every batch is tagged with that market's identifier.
    pub open spec fn wf(&self) -> bool {
        &&& self.done@.len() == self.markets@.len()
        &&& self.dispatched <= self.markets@.len()
        &&& self.in_flight + self.batches@.len() == self.dispatched
        &&& forall|i: int| 0 <= i < self.done@.len() && self.done@[i] ==> i < self.dispatched
        &&& self.batch_index@.len() == self.batches@.len()
        &&& forall|b: int|
            0 <= b < self.batch_index@.len() ==> 0 <= #[trigger] self.batch_index@[b]
                < self.markets@.len() && self.done@[self.batch_index@[b]]
        &&& forall|b1: int, b2: int|
            0 <= b1 < b2 < self.batch_index@.len() ==> self.batch_index@[b1]
                != self.batch_index@[b2]
        &&& forall|b: int|
            0 <= b < self.batches@.len() ==> batch_market(
                (#[trigger] self.batches@[b])@,
                self.markets@[self.batch_index@[b]].id as int,
            )
        &&& forall|i: int, j: int|
            0 <= i < j < self.markets@.len() ==> (#[trigger] self.markets@[i]).id != (
            #[trigger] self.markets@[j]).id
    }

    /// Begin a run: the market set is not known yet.
    pub fn new(exchange_id: i32, time_spec: TimeSpec, now_ms: u64) -> (r: FundingSession)
        ensures
            r.wf(),
            r.phase == SyncPhase::ListingMarkets,
            r.exchange_id == exchange_id,
            r.time_spec == time_spec,
            r.now_ms == now_ms,
            r.batches@.len() == 0,
    {
        FundingSession {
            exchange_id,
            time_spec,
            now_ms,
            markets: Vec::new(),
            dispatched: 0,
            in_flight: 0,
            done: Vec::new(),
            batches: Vec::new(),
            batch_index: Ghost(Seq::empty()),
            phase: SyncPhase::ListingMarkets,
        }
    }

    /// Record the active market set. An empty set ends the run at once —
    /// a recognized no-op, not an error.
    pub fn markets_listed(&mut self, markets: Vec<MarketRef>)
        requires
            old(self).wf(),
            old(self).phase == SyncPhase::ListingMarkets,
            forall|i: int, j: int|
                0 <= i < j < markets@.len() ==> (#[trigger] markets@[i]).id != (
                #[trigger] markets@[j]).id,
        ensures
            final(self).wf(),
            final(self).markets == markets,
            final(self).batches@.len() == 0,
            final(self).phase == if markets@.len() == 0 {
                SyncPhase::Done
            } else {
                SyncPhase::Fetching
            },
    {
        let n = markets.len();
        let mut done: Vec<bool> = Vec::new();
        let mut i: usize = 0;
        while i < n
            invariant
                0 <= i <= n,
                done@.len() == i,
                forall|j: int| 0 <= j < i ==> !(#[trigger] done@[j]),
            decreases n - i,
        {
            done.push(false);
            i += 1;
        }
        self.markets = markets;
        self.done = done;
        self.dispatched = 0;
        self.in_flight = 0;
        self.batches = Vec::new();
        self.batch_index = Ghost(Seq::empty());
        self.phase = if n == 0 {
            SyncPhase::Done
        } else {
            SyncPhase::Fetching
        };
    }

    /// Hand out the next market to fetch, unless every market is already
    /// dispatched or `cap` fetches are in flight. The result is the index
    /// of the market to work on.
    pub fn next_task(&mut self, cap: usize) -> (r: Option<usize>)
        requires
            old(self).wf(),
            old(self).phase == SyncPhase::Fetching,
        ensures
            final(self).wf(),
            final(self).phase == SyncPhase::Fetching,
            final(self).markets == old(self).markets,
            final(self).batches == old(self).batches,
            final(self).time_spec == old(self).time_spec,
            final(self).now_ms == old(self).now_ms,
            match r {
                Some(i) => {
                    &&& i == old(self).dispatched
                    &&& i < old(self).markets@.len()
                    &&& old(self).in_flight < cap
                    &&& final(self).dispatched == old(self).dispatched + 1
                    &&& final(self).in_flight == old(self).in_flight + 1
                },
                None => {
                    &&& old(self).dispatched == old(self).markets@.len() || old(self).in_flight
                        >= cap
                    &&& *final(self) == *old(self)
                },
            },
    {
        if self.dispatched < self.markets.len() && self.in_flight < cap {
            let i = self.dispatched;
            self.dispatched = self.dispatched + 1;
            self.in_flight = self.in_flight + 1;
            Some(i)
        } else {
            None
        }
    }

    /// The fetch window for one market, given its last persisted funding
    /// timestamp: `None` when the resolved window is inverted (start
    /// after end), which means "nothing to do" for this market.
    pub fn window_for(&self, last_ts_ms: Option<i64>) -> (r: Option<(u64, u64)>)
        ensures
            ({
                let (start, end) = resolved_window(self.time_spec, last_ts_ms, self.now_ms);
                r == if start <= end {
                    Some((start as u64, end as u64))
                } else {
                    None::<(u64, u64)>
                }
            }),
    {
        let (start, end) = self.time_spec.resolve(last_ts_ms, self.now_ms);
        if start <= end {
            Some((start, end))
        } else {
            None
        }
    }

    /// Record the rows fetched for market `i`, tagging each with the
    /// market's identifier. The market must have been handed out and not
    /// completed before.
    pub fn complete_fetch(&mut self, i: usize, rows: &Vec<NormalizedFundingRate>)
        requires
            old(self).wf(),
            old(self).phase == SyncPhase::Fetching,
            i < old(self).dispatched,
            !old(self).done@[i as int],
            old(self).in_flight > 0,
        ensures
            final(self).wf(),
            final(self).phase == SyncPhase::Fetching,
            final(self).markets == old(self).markets,
            final(self).in_flight == old(self).in_flight - 1,
            final(self).batches@.len() == old(self).batches@.len() + 1,
            final(self).batches@.subrange(0, old(self).batches@.len() as int) == old(
                self,
            ).batches@,
            ({
                let batch = final(self).batches@.last()@;
                &&& batch.len() == rows@.len()
                &&& forall|j: int|
                    0 <= j < rows@.len() ==> #[trigger] batch[j] == (FundingRow {
                        market_id: old(self).markets@[i as int].id,
                        rate: rows@[j].rate,
                        timestamp_ms: rows@[j].timestamp_ms,
                    })
            }),
    {
        let mid = self.markets[i].id;
        let mut batch: Vec<FundingRow> = Vec::new();
        let n = rows.len();
        let mut j: usize = 0;
        while j < n
            invariant
                0 <= j <= n,
                n == rows@.len(),
                batch@.len() == j,
                forall|l: int|
                    0 <= l < j ==> #[trigger] batch@[l] == (FundingRow {
                        market_id: mid,
                        rate: rows@[l].rate,
                        timestamp_ms: rows@[l].timestamp_ms,
                    }),
            decreases n - j,
        {
            batch.push(
                FundingRow { market_id: mid, rate: rows[j].rate, timestamp_ms: rows[j].timestamp_ms },
            );
            j += 1;
        }
        self.done.set(i, true);
        self.batches.push(batch);
        self.batch_index = Ghost(self.batch_index@.push(i as int));
        self.in_flight = self.in_flight - 1;
        assert(self.batches@.subrange(0, old(self).batches@.len() as int) =~= old(self).batches@);
        assert forall|b: int|
            0 <= b < self.batches@.len() implies batch_market(
            (#[trigger] self.batches@[b])@,
            self.markets@[self.batch_index@[b]].id as int,
        ) by {
            if b < old(self).batches@.len() {
                assert(self.batches@[b] == old(self).batches@[b]);
                assert(self.batch_index@[b] == old(self).batch_index@[b]);
            }
        }
    }

    /// Record that market `i` had nothing to do — an inverted window —
    /// contributing zero rows and raising no error.
    pub fn complete_skip(&mut self, i: usize)
        requires
            old(self).wf(),
            old(self).phase == SyncPhase::Fetching,
            i < old(self).dispatched,
            !old(self).done@[i as int],
            old(self).in_flight > 0,
        ensures
            final(self).wf(),
            final(self).phase == SyncPhase::Fetching,
            final(self).markets == old(self).markets,
            final(self).in_flight == old(self).in_flight - 1,
            final(self).batches@.len() == old(self).batches@.len() + 1,
            final(self).batches@.subrange(0, old(self).batches@.len() as int) == old(
                self,
            ).batches@,
            final(self).batches@.last()@.len() == 0,
    {
        let empty: Vec<NormalizedFundingRate> = Vec::new();
        self.complete_fetch(i, &empty);
    }

    /// A fetch failure for one market fails the whole exchange-run: no
    /// internal retries, recovery is re-invocation.
    pub fn fail(&mut self) -> (e: SyncError)
        ensures
            final(self).phase == SyncPhase::Failed,
            e == SyncError::Network,
    {
        self.phase = SyncPhase::Failed;
        SyncError::Network
    }

    /// Whether every dispatched fetch has completed and every market has
    /// been dispatched.
    pub fn all_done(&self) -> (r: bool)
        requires
            self.wf(),
        ensures
            r == (self.dispatched == self.markets@.len() && self.in_flight == 0),
    {
        self.dispatched == self.markets.len() && self.in_flight == 0
    }

    /// Fan the per-market batches into one sequence, ready for the
    /// persistence layer, and move to `Persisting`. The order across
    /// markets is irrelevant: see `lemma_collected_order_irrelevant`.
    pub fn collect(&mut self) -> (r: Vec<FundingRow>)
        requires
            old(self).wf(),
            old(self).phase == SyncPhase::Fetching,
            old(self).dispatched == old(self).markets@.len(),
            old(self).in_flight == 0,
        ensures
            final(self).wf(),
            final(self).phase == SyncPhase::Persisting,
            final(self).batches == old(self).batches,
            final(self).markets == old(self).markets,
            r@ == concat_batches(old(self).batches@.map_values(|b: Vec<FundingRow>| b@)),
    {
        let ghost bs = self.batches@.map_values(|b: Vec<FundingRow>| b@);
        let mut out: Vec<FundingRow> = Vec::new();
        let n = self.batches.len();
        let mut i: usize = 0;
        while i < n
            invariant
                0 <= i <= n,
                n == self.batches@.len(),
                bs == self.batches@.map_values(|b: Vec<FundingRow>| b@),
                out@ == concat_batches(bs.subrange(0, i as int)),
            decreases n - i,
        {
            let batch = &self.batches[i];
            let m = batch.len();
            let mut j: usize = 0;
            while j < m
                invariant
                    0 <= j <= m,
                    m == batch@.len(),
                    i < n,
                    n == self.batches@.len(),
                    batch == &self.batches[i as int],
                    bs == self.batches@.map_values(|b: Vec<FundingRow>| b@),
                    out@ == concat_batches(bs.subrange(0, i as int)) + batch@.subrange(
                        0,
                        j as int,
                    ),
                decreases m - j,
            {
                out.push(batch[j]);
                assert(out@ =~= concat_batches(bs.subrange(0, i as int)) + batch@.subrange(
                    0,
                    j + 1,
                ));
                j += 1;
            }
            proof {
                lemma_concat_batches_push(bs.subrange(0, i as int), bs[i as int]);
                assert(bs.subrange(0, i as int).push(bs[i as int]) =~= bs.subrange(0, i + 1));
                assert(batch@.subrange(0, m as int) =~= batch@);
                assert(bs[i as int] == batch@);
            }
            i += 1;
        }
        assert(bs.subrange(0, n as int) =~= bs);
        self.phase = SyncPhase::Persisting;
        out
    }

    /// The run has persisted its rows.
    pub fn persisted(&mut self)
        requires
            old(self).phase == SyncPhase::Persisting,
        ensures
            final(self).phase == SyncPhase::Done,
            final(self).batches == old(self).batches,
    {
        self.phase = SyncPhase::Done;
    }

    /// The market identifier each completed batch is tagged with.
    pub open spec fn batch_markets(&self) -> Seq<int> {
        Seq::new(
            self.batch_index@.len(),
            |b: int| self.markets@[self.batch_index@[b]].id as int,
        )
    }

    /// A session's batches are pairwise key-disjoint: each belongs to one
    /// market and no two belong to the same market.
    pub proof fn lemma_batches_disjoint(&self)
        requires
            self.wf(),
        ensures
            batches_key_disjoint(self.batches@.map_values(|b: Vec<FundingRow>| b@)),
    {
        let bs = self.batches@.map_values(|b: Vec<FundingRow>| b@);
        let mids = self.batch_markets();
        assert forall|i: int, j: int| 0 <= i < j < mids.len() implies mids[i] != mids[j] by {
            assert(self.batch_index@[i] != self.batch_index@[j]);
            let mi = self.batch_index@[i];
            let mj = self.batch_index@[j];
            if mi < mj {
                assert(self.markets@[mi].id != self.markets@[mj].id);
            } else {
                assert(self.markets@[mj].id != self.markets@[mi].id);
            }
        }
        lemma_per_market_batches_disjoint(bs, mids);
    }
}

/// A market whose resolved window is inverted contributes an empty batch,
/// and persisting an empty batch leaves the stored table exactly as it
/// was: zero rows fetched, zero rows written, no error raised.
pub proof fn lemma_skip_writes_nothing(m: Map<(int, int), crate::decimal::Dec>, b: Seq<FundingRow>)
    requires
        b.len() == 0,
    ensures
        insert_rows_map(m, b) == m,
{
}

/// Per-market batches flattened into one row sequence, in batch order.
pub open spec fn concat_batches(bs: Seq<Seq<FundingRow>>) -> Seq<FundingRow>
    decreases bs.len(),
{
    if bs.len() == 0 {
        Seq::empty()
    } else {
        bs.first() + concat_batches(bs.drop_first())
    }
}

/// Appending one batch appends its rows.
pub proof fn lemma_concat_batches_push(bs: Seq<Seq<FundingRow>>, b: Seq<FundingRow>)
    ensures
        concat_batches(bs.push(b)) == concat_batches(bs) + b,
    decreases bs.len(),
{
    assert(bs.push(b).len() == bs.len() + 1);
    assert(concat_batches(bs.push(b)) == bs.push(b).first() + concat_batches(
        bs.push(b).drop_first(),
    ));
    if bs.len() == 0 {
        assert(bs.push(b).first() == b);
        assert(bs.push(b).drop_first() =~= Seq::<Seq<FundingRow>>::empty());
        assert(concat_batches(bs.push(b)) =~= concat_batches(bs) + b);
    } else {
        assert(bs.push(b).first() == bs.first());
        assert(bs.push(b).drop_first() =~= bs.drop_first().push(b));
        lemma_concat_batches_push(bs.drop_first(), b);
        assert(bs.first() + (concat_batches(bs.drop_first()) + b) =~= (bs.first() + concat_batches(
            bs.drop_first(),
        )) + b);
    }
}

/// Inserting the flattened batches equals inserting them batch by batch.
pub proof fn lemma_insert_concat(m: Map<(int, int), crate::decimal::Dec>, bs: Seq<Seq<FundingRow>>)
    ensures
        insert_rows_map(m, concat_batches(bs)) == insert_batches(m, bs),
    decreases bs.len(),
{
    if bs.len() == 0 {
        assert(concat_batches(bs) =~= Seq::<FundingRow>::empty());
    } else {
        lemma_insert_rows_append(m, bs.first(), concat_batches(bs.drop_first()));
        lemma_insert_concat(insert_rows_map(m, bs.first()), bs.drop_first());
    }
}

/// Two runs of the orchestrator over identical input — the same markets
/// and the same per-market rows — persist byte-identical row sets,
/// whatever concurrency cap drove each run: the caps only change the
/// order in which per-market batches complete, and for a session's
/// key-disjoint batches that order does not change the stored table.
pub proof fn lemma_collected_order_irrelevant(
    m: Map<(int, int), crate::decimal::Dec>,
    s1: &FundingSession,
    s2: &FundingSession,
)
    requires
        s1.wf(),
        s2.wf(),
        s1.batches@.map_values(|b: Vec<FundingRow>| b@).to_multiset() == s2.batches@.map_values(
            |b: Vec<FundingRow>| b@,
        ).to_multiset(),
    ensures
        insert_rows_map(m, concat_batches(s1.batches@.map_values(|b: Vec<FundingRow>| b@)))
            == insert_rows_map(m, concat_batches(s2.batches@.map_values(|b: Vec<FundingRow>| b@))),
{
    let bs1 = s1.batches@.map_values(|b: Vec<FundingRow>| b@);
    let bs2 = s2.batches@.map_values(|b: Vec<FundingRow>| b@);
    lemma_insert_concat(m, bs1);
    lemma_insert_concat(m, bs2);
    s1.lemma_batches_disjoint();
    lemma_insert_batches_any_order(m, bs1, bs2);
}

} // verus!

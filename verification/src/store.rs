//! The persistence model: set-based, idempotent, first-write-wins storage
//! of funding-rate and stats rows, keyed by (market, timestamp).
//!
//! The store is the model of the relational tables this engine writes:
//! inserting a batch skips every row whose key is already present, exactly
//! as an "insert many, skip conflicts" statement does under the
//! per-(market, timestamp) uniqueness constraint. The laws proved here —
//! idempotence, read-back, chunk-irrelevance and batch-order-irrelevance —
//! are what make repeated, overlapping and concurrent sync runs safe.

use vstd::prelude::*;

use crate::decimal::Dec;
use crate::model::{MarketRef, NormalizedMarket, NormalizedMarketStats};
use crate::text::str_eq;

verus! {

/// One funding-rate row keyed for storage.
#[derive(Clone, Copy, Debug)]
pub struct FundingRow {
    pub market_id: i32,
    pub rate: Dec,
    pub timestamp_ms: i64,
}

/// The storage key of a row: its market and its instant.
pub open spec fn row_key(r: FundingRow) -> (int, int) {
    (r.market_id as int, r.timestamp_ms as int)
}

/// The table as a mathematical map, read through an option.
pub open spec fn map_opt(m: Map<(int, int), Dec>, k: (int, int)) -> Option<Dec> {
    if m.contains_key(k) {
        Some(m[k])
    } else {
        None
    }
}

/// One row inserted under first-write-wins: a conflicting key leaves the
/// table unchanged.
pub open spec fn insert_one(m: Map<(int, int), Dec>, r: FundingRow) -> Map<(int, int), Dec> {
    if m.contains_key(row_key(r)) {
        m
    } else {
        m.insert(row_key(r), r.rate)
    }
}

/// A row sequence inserted in order, each row under first-write-wins.
pub open spec fn insert_rows_map(m: Map<(int, int), Dec>, rows: Seq<FundingRow>) -> Map<
    (int, int),
    Dec,
>
    decreases rows.len(),
{
    if rows.len() == 0 {
        m
    } else {
        insert_rows_map(insert_one(m, rows.first()), rows.drop_first())
    }
}

/// The rate of the first row in the sequence carrying the given key.
pub open spec fn first_value(rows: Seq<FundingRow>, k: (int, int)) -> Option<Dec>
    decreases rows.len(),
{
    if rows.len() == 0 {
        None
    } else if row_key(rows.first()) == k {
        Some(rows.first().rate)
    } else {
        first_value(rows.drop_first(), k)
    }
}

/// Whether some row of the sequence carries the given key.
pub open spec fn has_key(rows: Seq<FundingRow>, k: (int, int)) -> bool {
    first_value(rows, k) is Some
}

/// What an insert leaves at each key: the old value where one was stored
/// ("first write wins"), else the first inserted row with that key, else
/// nothing.
pub proof fn lemma_insert_rows_char(m: Map<(int, int), Dec>, rows: Seq<FundingRow>, k: (int, int))
    ensures
        map_opt(insert_rows_map(m, rows), k) == (match map_opt(m, k) {
            Some(v) => Some(v),
            None => first_value(rows, k),
        }),
    decreases rows.len(),
{
    if rows.len() > 0 {
        lemma_insert_rows_char(insert_one(m, rows.first()), rows.drop_first(), k);
    }
}

/// Appending one row to a batch inserts it last.
pub proof fn lemma_insert_rows_push(m: Map<(int, int), Dec>, rows: Seq<FundingRow>, r: FundingRow)
    ensures
        insert_rows_map(m, rows.push(r)) == insert_one(insert_rows_map(m, rows), r),
    decreases rows.len(),
{
    assert(rows.push(r).len() == rows.len() + 1);
    assert(insert_rows_map(m, rows.push(r)) == insert_rows_map(
        insert_one(m, rows.push(r).first()),
        rows.push(r).drop_first(),
    ));
    if rows.len() == 0 {
        assert(rows.push(r).first() == r);
        assert(rows.push(r).drop_first() =~= Seq::<FundingRow>::empty());
    } else {
        assert(rows.push(r).first() == rows.first());
        assert(rows.push(r).drop_first() =~= rows.drop_first().push(r));
        lemma_insert_rows_push(insert_one(m, rows.first()), rows.drop_first(), r);
    }
}

/// Inserting a concatenation equals inserting the two parts in turn: a
/// batch split into chunks stores exactly what the whole batch would.
pub proof fn lemma_insert_rows_append(
    m: Map<(int, int), Dec>,
    a: Seq<FundingRow>,
    b: Seq<FundingRow>,
)
    ensures
        insert_rows_map(m, a + b) == insert_rows_map(insert_rows_map(m, a), b),
    decreases a.len(),
{
    if a.len() == 0 {
        assert(a + b =~= b);
    } else {
        assert((a + b).first() == a.first());
        assert((a + b).drop_first() =~= a.drop_first() + b);
        lemma_insert_rows_append(insert_one(m, a.first()), a.drop_first(), b);
    }
}

/// Two tables that agree at every key are the same table.
pub proof fn lemma_map_opt_ext(m1: Map<(int, int), Dec>, m2: Map<(int, int), Dec>)
    requires
        forall|k: (int, int)| #[trigger] map_opt(m1, k) == map_opt(m2, k),
    ensures
        m1 == m2,
{
    assert forall|k: (int, int)| #[trigger] m1.dom().contains(k) implies m2.dom().contains(k) by {
        assert(map_opt(m1, k) == map_opt(m2, k));
    }
    assert forall|k: (int, int)| #[trigger] m2.dom().contains(k) implies m1.dom().contains(k) by {
        assert(map_opt(m1, k) == map_opt(m2, k));
    }
    assert forall|k: (int, int)| #[trigger] m1.dom().contains(k) implies m1[k] == m2[k] by {
        assert(map_opt(m1, k) == map_opt(m2, k));
    }
    assert(m1 =~= m2);
}

/// Persisting the same row set twice stores exactly what persisting it
/// once does: repeated and overlapping runs add nothing and change
/// nothing.
pub proof fn lemma_insert_rows_idempotent(m: Map<(int, int), Dec>, rows: Seq<FundingRow>)
    ensures
        insert_rows_map(insert_rows_map(m, rows), rows) == insert_rows_map(m, rows),
{
    let m1 = insert_rows_map(m, rows);
    assert forall|k: (int, int)|
        #[trigger] map_opt(insert_rows_map(m1, rows), k) == map_opt(m1, k) by {
        lemma_insert_rows_char(m, rows, k);
        lemma_insert_rows_char(m1, rows, k);
    }
    lemma_map_opt_ext(insert_rows_map(m1, rows), m1);
}

/// A batch whose every key is already stored — as when two overlapping
/// fetch results cover a shared sub-window — adds nothing and changes
/// nothing.
pub proof fn lemma_insert_rows_covered(m: Map<(int, int), Dec>, rows: Seq<FundingRow>)
    requires
        forall|j: int| 0 <= j < rows.len() ==> m.contains_key(row_key(#[trigger] rows[j])),
    ensures
        insert_rows_map(m, rows) == m,
{
    assert forall|k: (int, int)|
        #[trigger] map_opt(insert_rows_map(m, rows), k) == map_opt(m, k) by {
        lemma_insert_rows_char(m, rows, k);
        if !m.contains_key(k) && first_value(rows, k) is Some {
            lemma_some_key_witness(rows, k);
        }
    }
    lemma_map_opt_ext(insert_rows_map(m, rows), m);
}

/// A row persisted under a fresh key is read back exactly: the rate and
/// the millisecond timestamp are those of the source row.
pub proof fn lemma_insert_round_trip(m: Map<(int, int), Dec>, rows: Seq<FundingRow>, i: int)
    requires
        0 <= i < rows.len(),
        !m.contains_key(row_key(rows[i])),
        forall|j: int| 0 <= j < i ==> row_key(#[trigger] rows[j]) != row_key(rows[i]),
    ensures
        map_opt(insert_rows_map(m, rows), row_key(rows[i])) == Some(rows[i].rate),
{
    let k = row_key(rows[i]);
    lemma_insert_rows_char(m, rows, k);
    lemma_first_value_at(rows, i);
}

/// The first row carrying its own key determines `first_value` at it.
proof fn lemma_first_value_at(rows: Seq<FundingRow>, i: int)
    requires
        0 <= i < rows.len(),
        forall|j: int| 0 <= j < i ==> row_key(#[trigger] rows[j]) != row_key(rows[i]),
    ensures
        first_value(rows, row_key(rows[i])) == Some(rows[i].rate),
    decreases i,
{
    if i > 0 {
        assert(rows.drop_first()[i - 1] == rows[i]);
        assert(forall|j: int|
            0 <= j < i - 1 ==> row_key(#[trigger] rows.drop_first()[j]) != row_key(
                rows.drop_first()[i - 1],
            ));
        lemma_first_value_at(rows.drop_first(), i - 1);
    }
}

/// The funding-rate table: append-only rows, unique per (market,
/// timestamp), written only through skip-conflict inserts.
#[derive(Debug)]
pub struct FundingStore {
    rows: Vec<FundingRow>,
}

impl View for FundingStore {
    type V = Map<(int, int), Dec>;

    /// The table as a map from (market, timestamp) to the stored rate.
    closed spec fn view(&self) -> Map<(int, int), Dec> {
        insert_rows_map(Map::empty(), self.rows@)
    }
}

impl FundingStore {
    /// The number of stored rows.
    pub closed spec fn spec_len(&self) -> int {
        self.rows@.len() as int
    }

    /// No two stored rows share a key.
    pub closed spec fn wf(&self) -> bool {
        forall|i: int, j: int|
            0 <= i < j < self.rows@.len() ==> row_key(#[trigger] self.rows@[i]) != row_key(
                #[trigger] self.rows@[j],
            )
    }

    /// An empty table.
    pub fn new() -> (r: FundingStore)
        ensures
            r.wf(),
            r@ == Map::<(int, int), Dec>::empty(),
            r.spec_len() == 0,
    {
        FundingStore { rows: Vec::new() }
    }

    /// Whether a row for this market and instant is stored.
    pub fn contains(&self, market_id: i32, timestamp_ms: i64) -> (r: bool)
        ensures
            r == self@.contains_key((market_id as int, timestamp_ms as int)),
    {
        match self.get(market_id, timestamp_ms) {
            Some(_) => true,
            None => false,
        }
    }

    /// The stored rate for a market and instant, if any.
    pub fn get(&self, market_id: i32, timestamp_ms: i64) -> (r: Option<Dec>)
        ensures
            r == map_opt(self@, (market_id as int, timestamp_ms as int)),
    {
        let ghost k = (market_id as int, timestamp_ms as int);
        proof {
            lemma_insert_rows_char(Map::empty(), self.rows@, k);
        }
        let n = self.rows.len();
        assert(self.rows@.subrange(0, n as int) =~= self.rows@);
        let mut i: usize = 0;
        while i < n
            invariant
                0 <= i <= n,
                n == self.rows@.len(),
                k == (market_id as int, timestamp_ms as int),
                map_opt(self@, k) == first_value(self.rows@, k),
                first_value(self.rows@, k) == first_value(self.rows@.subrange(i as int, n as int), k),
            decreases n - i,
        {
            let r = &self.rows[i];
            let ghost rest = self.rows@.subrange(i as int, n as int);
            assert(rest.first() == self.rows@[i as int]);
            assert(rest.drop_first() =~= self.rows@.subrange(i + 1, n as int));
            if r.market_id == market_id && r.timestamp_ms == timestamp_ms {
                return Some(r.rate);
            }
            i += 1;
        }
        assert(self.rows@.subrange(n as int, n as int) =~= Seq::<FundingRow>::empty());
        None
    }

    /// The number of stored rows.
    pub fn len(&self) -> (r: usize)
        ensures
            r == self.spec_len(),
    {
        self.rows.len()
    }

    /// The latest stored funding timestamp for a market, if any row for it
    /// is stored.
    pub fn last_timestamp(&self, market_id: i32) -> (r: Option<i64>)
        ensures
            match r {
                Some(t) => {
                    &&& self@.contains_key((market_id as int, t as int))
                    &&& forall|ts: int|
                        self@.contains_key((market_id as int, ts)) ==> ts <= t
                },
                None => forall|ts: int| !self@.contains_key((market_id as int, ts)),
            },
    {
        let n = self.rows.len();
        let mut best: Option<i64> = None;
        let mut i: usize = 0;
        while i < n
            invariant
                0 <= i <= n,
                n == self.rows@.len(),
                match best {
                    Some(t) => {
                        &&& self@.contains_key((market_id as int, t as int))
                        &&& forall|j: int|
                            0 <= j < i && (#[trigger] self.rows@[j]).market_id == market_id
                                ==> self.rows@[j].timestamp_ms <= t
                    },
                    None => forall|j: int|
                        0 <= j < i ==> (#[trigger] self.rows@[j]).market_id != market_id,
                },
            decreases n - i,
        {
            let r = &self.rows[i];
            if r.market_id == market_id {
                let keep = match best {
                    Some(t) => r.timestamp_ms > t,
                    None => true,
                };
                if keep {
                    proof {
                        lemma_insert_rows_char(
                            Map::empty(),
                            self.rows@,
                            (market_id as int, r.timestamp_ms as int),
                        );
                        lemma_first_value_some(
                            self.rows@,
                            (market_id as int, r.timestamp_ms as int),
                            i as int,
                        );
                    }
                    best = Some(r.timestamp_ms);
                }
            }
            i += 1;
        }
        match best {
            None => {
                proof {
                    assert forall|ts: int|
                        !#[trigger] self@.contains_key((market_id as int, ts)) by {
                        lemma_insert_rows_char(Map::empty(), self.rows@, (market_id as int, ts));
                        lemma_no_key_none(self.rows@, (market_id as int, ts));
                    }
                }
                None
            },
            Some(t) => {
                proof {
                    assert forall|ts: int|
                        #[trigger] self@.contains_key((market_id as int, ts)) implies ts <= t by {
                        lemma_insert_rows_char(Map::empty(), self.rows@, (market_id as int, ts));
                        lemma_some_key_witness(self.rows@, (market_id as int, ts));
                    }
                }
                Some(t)
            },
        }
    }

    /// Insert a batch of rows, skipping every row whose (market,
    /// timestamp) key is already stored: first write wins, nothing is
    /// overwritten, nothing is deleted. Empty input is a no-op.
    pub fn insert_funding_rates(&mut self, rows: &Vec<FundingRow>)
        requires
            old(self).wf(),
        ensures
            final(self).wf(),
            final(self)@ == insert_rows_map(old(self)@, rows@),
    {
        let n = rows.len();
        let mut i: usize = 0;
        while i < n
            invariant
                0 <= i <= n,
                n == rows@.len(),
                self.wf(),
                self@ == insert_rows_map(old(self)@, rows@.subrange(0, i as int)),
            decreases n - i,
        {
            let r = rows[i];
            let ghost prefix = rows@.subrange(0, i as int);
            let ghost prefix1 = rows@.subrange(0, i + 1);
            assert(prefix1 =~= prefix.push(rows@[i as int]));
            proof {
                lemma_insert_rows_push(old(self)@, prefix, rows@[i as int]);
            }
            if !self.contains(r.market_id, r.timestamp_ms) {
                self.push_fresh(r);
            }
            i += 1;
        }
        assert(rows@.subrange(0, n as int) =~= rows@);
    }

    /// Insert a batch in chunks of at most `chunk_size` rows — each chunk
    /// one storage transaction — storing exactly what inserting the whole
    /// batch at once would store.
    pub fn insert_funding_rates_chunked(&mut self, rows: &Vec<FundingRow>, chunk_size: usize)
        requires
            old(self).wf(),
            chunk_size > 0,
        ensures
            final(self).wf(),
            final(self)@ == insert_rows_map(old(self)@, rows@),
    {
        let n = rows.len();
        let mut start: usize = 0;
        while start < n
            invariant
                0 <= start <= n,
                n == rows@.len(),
                chunk_size > 0,
                self.wf(),
                self@ == insert_rows_map(old(self)@, rows@.subrange(0, start as int)),
            decreases n - start,
        {
            let end: usize = if n - start > chunk_size {
                start + chunk_size
            } else {
                n
            };
            let mut chunk: Vec<FundingRow> = Vec::new();
            let mut j: usize = start;
            while j < end
                invariant
                    start <= j <= end,
                    end <= n,
                    n == rows@.len(),
                    chunk@ == rows@.subrange(start as int, j as int),
                decreases end - j,
            {
                chunk.push(rows[j]);
                assert(chunk@ =~= rows@.subrange(start as int, j + 1));
                j += 1;
            }
            self.insert_funding_rates(&chunk);
            proof {
                lemma_insert_rows_append(
                    old(self)@,
                    rows@.subrange(0, start as int),
                    rows@.subrange(start as int, end as int),
                );
                assert(rows@.subrange(0, start as int) + rows@.subrange(start as int, end as int)
                    =~= rows@.subrange(0, end as int));
            }
            start = end;
        }
        assert(rows@.subrange(0, n as int) =~= rows@);
    }

    /// Append one row whose key is not yet stored.
    fn push_fresh(&mut self, r: FundingRow)
        requires
            old(self).wf(),
            !old(self)@.contains_key(row_key(r)),
        ensures
            final(self).wf(),
            final(self)@ == old(self)@.insert(row_key(r), r.rate),
            final(self).spec_len() == old(self).spec_len() + 1,
    {
        proof {
            lemma_insert_rows_push(Map::empty(), self.rows@, r);
            lemma_insert_rows_char(Map::empty(), self.rows@, row_key(r));
            assert forall|j: int| 0 <= j < self.rows@.len() implies row_key(
                #[trigger] self.rows@[j],
            ) != row_key(r) by {
                if row_key(self.rows@[j]) == row_key(r) {
                    lemma_first_value_some(self.rows@, row_key(r), j);
                }
            }
        }
        self.rows.push(r);
        assert(self.rows@.drop_last() =~= old(self).rows@);
        assert(self.rows@ =~= old(self).rows@.push(r));
    }
}

/// A sequence with no row for a key has no first value at it.
proof fn lemma_no_key_none(rows: Seq<FundingRow>, k: (int, int))
    requires
        forall|j: int| 0 <= j < rows.len() ==> row_key(#[trigger] rows[j]) != k,
    ensures
        first_value(rows, k) is None,
    decreases rows.len(),
{
    if rows.len() > 0 {
        assert(forall|j: int|
            0 <= j < rows.drop_first().len() ==> row_key(#[trigger] rows.drop_first()[j]) != k);
        lemma_no_key_none(rows.drop_first(), k);
    }
}

/// A row at any index makes `first_value` defined at its key.
proof fn lemma_first_value_some(rows: Seq<FundingRow>, k: (int, int), i: int)
    requires
        0 <= i < rows.len(),
        row_key(rows[i]) == k,
    ensures
        first_value(rows, k) is Some,
    decreases i,
{
    if rows.len() > 0 && row_key(rows.first()) != k {
        assert(i > 0);
        assert(rows.drop_first()[i - 1] == rows[i]);
        lemma_first_value_some(rows.drop_first(), k, i - 1);
    }
}

/// A defined `first_value` comes from some row with that key.
pub proof fn lemma_some_key_witness(rows: Seq<FundingRow>, k: (int, int))
    requires
        first_value(rows, k) is Some,
    ensures
        exists|j: int| 0 <= j < rows.len() && row_key(#[trigger] rows[j]) == k,
    decreases rows.len(),
{
    if rows.len() > 0 {
        if row_key(rows.first()) == k {
            assert(row_key(rows[0]) == k);
        } else {
            lemma_some_key_witness(rows.drop_first(), k);
            let j = choose|j: int|
                0 <= j < rows.drop_first().len() && row_key(#[trigger] rows.drop_first()[j]) == k;
            assert(rows[j + 1] == rows.drop_first()[j]);
        }
    }
}

// ------------------------------------------------------------------
// Order irrelevance across per-market batches
// ------------------------------------------------------------------

/// No key occurs in both row sequences.
pub open spec fn key_disjoint(a: Seq<FundingRow>, b: Seq<FundingRow>) -> bool {
    forall|k: (int, int)| !(#[trigger] has_key(a, k) && #[trigger] has_key(b, k))
}

/// A sequence of batches inserted in order.
pub open spec fn insert_batches(m: Map<(int, int), Dec>, bs: Seq<Seq<FundingRow>>) -> Map<
    (int, int),
    Dec,
>
    decreases bs.len(),
{
    if bs.len() == 0 {
        m
    } else {
        insert_batches(insert_rows_map(m, bs.first()), bs.drop_first())
    }
}

/// No key occurs in two different batches.
pub open spec fn batches_key_disjoint(bs: Seq<Seq<FundingRow>>) -> bool {
    forall|i: int, j: int|
        0 <= i < bs.len() && 0 <= j < bs.len() && i != j ==> key_disjoint(
            #[trigger] bs[i],
            #[trigger] bs[j],
        )
}

/// Two key-disjoint batches may be inserted in either order.
pub proof fn lemma_insert_rows_comm(m: Map<(int, int), Dec>, a: Seq<FundingRow>, b: Seq<FundingRow>)
    requires
        key_disjoint(a, b),
    ensures
        insert_rows_map(insert_rows_map(m, a), b) == insert_rows_map(insert_rows_map(m, b), a),
{
    let lhs = insert_rows_map(insert_rows_map(m, a), b);
    let rhs = insert_rows_map(insert_rows_map(m, b), a);
    assert forall|k: (int, int)| #[trigger] map_opt(lhs, k) == map_opt(rhs, k) by {
        lemma_insert_rows_char(m, a, k);
        lemma_insert_rows_char(insert_rows_map(m, a), b, k);
        lemma_insert_rows_char(m, b, k);
        lemma_insert_rows_char(insert_rows_map(m, b), a, k);
        assert(!(has_key(a, k) && has_key(b, k)));
    }
    lemma_map_opt_ext(lhs, rhs);
}

/// A batch that shares no key with those before it may be inserted first.
pub proof fn lemma_insert_batches_pull(m: Map<(int, int), Dec>, bs: Seq<Seq<FundingRow>>, j: int)
    requires
        0 <= j < bs.len(),
        forall|i: int| 0 <= i < j ==> key_disjoint(#[trigger] bs[i], bs[j]),
    ensures
        insert_batches(m, bs) == insert_batches(insert_rows_map(m, bs[j]), bs.remove(j)),
    decreases j,
{
    if j == 0 {
        assert(bs.remove(0) =~= bs.drop_first());
        assert(bs.first() == bs[0]);
    } else {
        let m1 = insert_rows_map(m, bs.first());
        assert(bs.drop_first()[j - 1] == bs[j]);
        assert forall|i: int|
            0 <= i < j - 1 implies key_disjoint(#[trigger] bs.drop_first()[i], bs.drop_first()[j - 1]) by {
            assert(bs.drop_first()[i] == bs[i + 1]);
        }
        lemma_insert_batches_pull(m1, bs.drop_first(), j - 1);
        assert(key_disjoint(bs[0], bs[j]));
        assert(bs.first() == bs[0]);
        lemma_insert_rows_comm(m, bs.first(), bs[j]);
        assert(bs.drop_first().remove(j - 1) =~= bs.remove(j).drop_first());
        assert(bs.remove(j)[0] == bs[0]);
        assert(bs.remove(j).first() == bs.first());
        assert(bs.remove(j).len() == bs.len() - 1);
        assert(insert_batches(insert_rows_map(m, bs[j]), bs.remove(j)) == insert_batches(
            insert_rows_map(insert_rows_map(m, bs[j]), bs.first()),
            bs.remove(j).drop_first(),
        ));
    }
}

/// The first index of a batch in a batch sequence, from `i` on.
pub open spec fn first_index_from(bs: Seq<Seq<FundingRow>>, b: Seq<FundingRow>, i: int) -> Option<
    int,
>
    decreases bs.len() - i,
{
    if i < 0 || i >= bs.len() {
        None
    } else if bs[i] == b {
        Some(i)
    } else {
        first_index_from(bs, b, i + 1)
    }
}

/// A contained batch has a first index, before which it does not occur.
proof fn lemma_first_index_props(bs: Seq<Seq<FundingRow>>, b: Seq<FundingRow>, i: int)
    requires
        0 <= i,
        exists|j: int| i <= j < bs.len() && bs[j] == b,
    ensures
        match first_index_from(bs, b, i) {
            Some(j) => i <= j < bs.len() && bs[j] == b && forall|l: int| i <= l < j ==> bs[l] != b,
            None => false,
        },
    decreases bs.len() - i,
{
    let j0 = choose|j: int| i <= j < bs.len() && bs[j] == b;
    if bs[i] != b {
        assert(i < j0);
        lemma_first_index_props(bs, b, i + 1);
    }
}

/// Persisting the same set of per-market batches in any arrival order
/// stores exactly the same table: with key-disjoint batches — as produced
/// by per-market fetches — the final row set does not depend on the order
/// in which concurrent fetches complete, whatever the concurrency cap.
pub proof fn lemma_insert_batches_any_order(
    m: Map<(int, int), Dec>,
    bs1: Seq<Seq<FundingRow>>,
    bs2: Seq<Seq<FundingRow>>,
)
    requires
        bs1.to_multiset() == bs2.to_multiset(),
        batches_key_disjoint(bs1),
    ensures
        insert_batches(m, bs2) == insert_batches(m, bs1),
    decreases bs1.len(),
{
    broadcast use vstd::seq_lib::group_to_multiset_ensures;

    if bs1.len() == 0 {
        assert(bs1.to_multiset().len() == bs1.len());
        assert(bs2.to_multiset().len() == bs2.len());
        assert(bs2.len() == 0);
    } else {
        let b = bs1.first();
        assert(bs1[0] == b);
        assert(bs1.contains(b));
        assert(bs2.to_multiset().count(b) > 0);
        assert(bs2.contains(b));
        let j0 = choose|j: int| 0 <= j < bs2.len() && bs2[j] == b;
        lemma_first_index_props(bs2, b, 0);
        let j = first_index_from(bs2, b, 0)->0;
        assert forall|i: int| 0 <= i < j implies key_disjoint(#[trigger] bs2[i], bs2[j]) by {
            assert(bs2[i] != b);
            assert(bs2.contains(bs2[i]));
            assert(bs1.to_multiset().count(bs2[i]) > 0);
            assert(bs1.contains(bs2[i]));
            let i1 = choose|i1: int| 0 <= i1 < bs1.len() && bs1[i1] == bs2[i];
            assert(i1 != 0);
            assert(key_disjoint(bs1[i1], bs1[0]));
        }
        lemma_insert_batches_pull(m, bs2, j);
        assert(bs1.drop_first() =~= bs1.remove(0));
        assert(bs1.remove(0).to_multiset() =~= bs1.to_multiset().remove(b));
        assert(bs2.remove(j).to_multiset() =~= bs2.to_multiset().remove(b));
        assert(bs1.drop_first().to_multiset() == bs2.remove(j).to_multiset());
        assert forall|i: int, l: int|
            0 <= i < bs1.drop_first().len() && 0 <= l < bs1.drop_first().len() && i != l
                implies key_disjoint(#[trigger] bs1.drop_first()[i], #[trigger] bs1.drop_first()[l]) by {
            assert(bs1.drop_first()[i] == bs1[i + 1]);
            assert(bs1.drop_first()[l] == bs1[l + 1]);
        }
        lemma_insert_batches_any_order(insert_rows_map(m, b), bs1.drop_first(), bs2.remove(j));
    }
}

/// One market-stats row keyed for storage.
#[derive(Clone, Copy, Debug)]
pub struct StatsRow {
    pub market_id: i32,
    pub open_interest: Option<Dec>,
    pub volume_24h: Option<Dec>,
    pub timestamp_ms: i64,
}

/// The storage key of a stats row.
pub open spec fn stats_key(r: StatsRow) -> (int, int) {
    (r.market_id as int, r.timestamp_ms as int)
}

/// The stored figures of a stats row.
pub open spec fn stats_value(r: StatsRow) -> (Option<Dec>, Option<Dec>) {
    (r.open_interest, r.volume_24h)
}

/// One stats row inserted under first-write-wins.
pub open spec fn stats_insert_one(
    m: Map<(int, int), (Option<Dec>, Option<Dec>)>,
    r: StatsRow,
) -> Map<(int, int), (Option<Dec>, Option<Dec>)> {
    if m.contains_key(stats_key(r)) {
        m
    } else {
        m.insert(stats_key(r), stats_value(r))
    }
}

/// A stats row sequence inserted in order.
pub open spec fn insert_stats_map(
    m: Map<(int, int), (Option<Dec>, Option<Dec>)>,
    rows: Seq<StatsRow>,
) -> Map<(int, int), (Option<Dec>, Option<Dec>)>
    decreases rows.len(),
{
    if rows.len() == 0 {
        m
    } else {
        insert_stats_map(stats_insert_one(m, rows.first()), rows.drop_first())
    }
}

/// Appending one stats row to a batch inserts it last.
pub proof fn lemma_insert_stats_push(
    m: Map<(int, int), (Option<Dec>, Option<Dec>)>,
    rows: Seq<StatsRow>,
    r: StatsRow,
)
    ensures
        insert_stats_map(m, rows.push(r)) == stats_insert_one(insert_stats_map(m, rows), r),
    decreases rows.len(),
{
    assert(rows.push(r).len() == rows.len() + 1);
    assert(insert_stats_map(m, rows.push(r)) == insert_stats_map(
        stats_insert_one(m, rows.push(r).first()),
        rows.push(r).drop_first(),
    ));
    if rows.len() == 0 {
        assert(rows.push(r).first() == r);
        assert(rows.push(r).drop_first() =~= Seq::<StatsRow>::empty());
    } else {
        assert(rows.push(r).first() == rows.first());
        assert(rows.push(r).drop_first() =~= rows.drop_first().push(r));
        lemma_insert_stats_push(stats_insert_one(m, rows.first()), rows.drop_first(), r);
    }
}

/// The market-stats table: append-only rows, unique per (market,
/// timestamp), written only through skip-conflict inserts.
#[derive(Debug)]
pub struct StatsStore {
    rows: Vec<StatsRow>,
}

impl View for StatsStore {
    type V = Map<(int, int), (Option<Dec>, Option<Dec>)>;

    /// The table as a map from (market, timestamp) to the stored figures.
    closed spec fn view(&self) -> Map<(int, int), (Option<Dec>, Option<Dec>)> {
        insert_stats_map(Map::empty(), self.rows@)
    }
}

impl StatsStore {
    /// The number of stored rows.
    pub closed spec fn spec_len(&self) -> int {
        self.rows@.len() as int
    }

    /// No two stored rows share a key.
    pub closed spec fn wf(&self) -> bool {
        forall|i: int, j: int|
            0 <= i < j < self.rows@.len() ==> stats_key(#[trigger] self.rows@[i]) != stats_key(
                #[trigger] self.rows@[j],
            )
    }

    /// An empty table.
    pub fn new() -> (r: StatsStore)
        ensures
            r.wf(),
            r@ == Map::<(int, int), (Option<Dec>, Option<Dec>)>::empty(),
            r.spec_len() == 0,
    {
        StatsStore { rows: Vec::new() }
    }

    /// The number of stored rows.
    pub fn len(&self) -> (r: usize)
        ensures
            r == self.spec_len(),
    {
        self.rows.len()
    }

    /// Whether a row for this market and instant is stored.
    pub fn contains(&self, market_id: i32, timestamp_ms: i64) -> (r: bool)
        ensures
            r == self@.contains_key((market_id as int, timestamp_ms as int)),
    {
        let ghost k = (market_id as int, timestamp_ms as int);
        proof {
            lemma_stats_rows_contains(Map::empty(), self.rows@, k);
        }
        let n = self.rows.len();
        let mut i: usize = 0;
        let mut found = false;
        while i < n
            invariant
                0 <= i <= n,
                n == self.rows@.len(),
                k == (market_id as int, timestamp_ms as int),
                found == exists|j: int| 0 <= j < i && stats_key(#[trigger] self.rows@[j]) == k,
            decreases n - i,
        {
            let r = &self.rows[i];
            if r.market_id == market_id && r.timestamp_ms == timestamp_ms {
                assert(stats_key(self.rows@[i as int]) == k);
                found = true;
            }
            i += 1;
        }
        found
    }

    /// Insert a batch of stats rows, skipping every row whose key is
    /// already stored. Empty input is a no-op.
    pub fn insert_market_stats(&mut self, rows: &Vec<StatsRow>)
        requires
            old(self).wf(),
        ensures
            final(self).wf(),
            final(self)@ == insert_stats_map(old(self)@, rows@),
    {
        let n = rows.len();
        let mut i: usize = 0;
        while i < n
            invariant
                0 <= i <= n,
                n == rows@.len(),
                self.wf(),
                self@ == insert_stats_map(old(self)@, rows@.subrange(0, i as int)),
            decreases n - i,
        {
            let r = rows[i];
            let ghost prefix = rows@.subrange(0, i as int);
            let ghost prefix1 = rows@.subrange(0, i + 1);
            assert(prefix1 =~= prefix.push(rows@[i as int]));
            proof {
                lemma_insert_stats_push(old(self)@, prefix, rows@[i as int]);
            }
            if !self.contains(r.market_id, r.timestamp_ms) {
                self.stats_push_fresh(r);
            }
            i += 1;
        }
        assert(rows@.subrange(0, n as int) =~= rows@);
    }

    /// Resolve each row's exchange-native symbol to a market identifier
    /// against the given market rows — the first match wins, rows with no
    /// matching market are dropped, as an insert-time join drops them —
    /// and insert the resolved rows.
    pub fn insert_market_stats_by_symbol(
        &mut self,
        markets: &Vec<MarketRef>,
        rows: &Vec<(String, NormalizedMarketStats)>,
    )
        requires
            old(self).wf(),
        ensures
            final(self).wf(),
            final(self)@ == insert_stats_map(
                old(self)@,
                resolve_stats_rows(rows@, markets@),
            ),
    {
        let resolved = resolve_market_ids(markets, rows);
        self.insert_market_stats(&resolved);
    }

    /// Append one stats row whose key is not yet stored.
    fn stats_push_fresh(&mut self, r: StatsRow)
        requires
            old(self).wf(),
            !old(self)@.contains_key(stats_key(r)),
        ensures
            final(self).wf(),
            final(self)@ == old(self)@.insert(stats_key(r), stats_value(r)),
    {
        proof {
            lemma_insert_stats_push(Map::empty(), self.rows@, r);
            lemma_stats_rows_contains(Map::empty(), self.rows@, stats_key(r));
        }
        self.rows.push(r);
        assert(self.rows@ =~= old(self).rows@.push(r));
    }
}

/// A key is stored exactly when some inserted row carries it.
proof fn lemma_stats_rows_contains(
    m: Map<(int, int), (Option<Dec>, Option<Dec>)>,
    rows: Seq<StatsRow>,
    k: (int, int),
)
    ensures
        insert_stats_map(m, rows).contains_key(k) <==> (m.contains_key(k) || exists|j: int|
            0 <= j < rows.len() && stats_key(#[trigger] rows[j]) == k),
    decreases rows.len(),
{
    if rows.len() > 0 {
        lemma_stats_rows_contains(stats_insert_one(m, rows.first()), rows.drop_first(), k);
        if insert_stats_map(m, rows).contains_key(k) && !m.contains_key(k) {
            if stats_key(rows.first()) == k {
                assert(stats_key(rows[0]) == k);
            } else {
                let j = choose|j: int|
                    0 <= j < rows.drop_first().len() && stats_key(
                        #[trigger] rows.drop_first()[j],
                    ) == k;
                assert(rows[j + 1] == rows.drop_first()[j]);
            }
        }
        if exists|j: int| 0 <= j < rows.len() && stats_key(#[trigger] rows[j]) == k {
            let j = choose|j: int| 0 <= j < rows.len() && stats_key(#[trigger] rows[j]) == k;
            if j > 0 {
                assert(rows.drop_first()[j - 1] == rows[j]);
            }
        }
    }
}

/// The identifier of the first market row carrying the given symbol,
/// searching from index `i` on.
pub open spec fn find_market_id_from(markets: Seq<MarketRef>, sym: Seq<char>, i: int) -> Option<
    i32,
>
    decreases markets.len() - i,
{
    if i < 0 || i >= markets.len() {
        None
    } else if markets[i].market_symbol@ == sym {
        Some(markets[i].id)
    } else {
        find_market_id_from(markets, sym, i + 1)
    }
}

/// Look up a market identifier by exchange-native symbol.
pub fn find_market_id(markets: &Vec<MarketRef>, sym: &str) -> (r: Option<i32>)
    ensures
        r == find_market_id_from(markets@, sym@, 0),
{
    let n = markets.len();
    let mut i: usize = 0;
    while i < n
        invariant
            0 <= i <= n,
            n == markets@.len(),
            find_market_id_from(markets@, sym@, 0) == find_market_id_from(markets@, sym@, i as int),
        decreases n - i,
    {
        let m = &markets[i];
        if str_eq(m.market_symbol.as_str(), sym) {
            return Some(m.id);
        }
        i += 1;
    }
    None
}

/// Symbol-keyed stats rows joined against the market rows: each row gets
/// the identifier of the first market carrying its symbol; rows with no
/// matching market are dropped.
pub open spec fn resolve_stats_rows(
    rows: Seq<(String, NormalizedMarketStats)>,
    markets: Seq<MarketRef>,
) -> Seq<StatsRow>
    decreases rows.len(),
{
    if rows.len() == 0 {
        Seq::empty()
    } else {
        let init = resolve_stats_rows(rows.drop_last(), markets);
        match find_market_id_from(markets, rows.last().0@, 0) {
            Some(id) => init.push(
                StatsRow {
                    market_id: id,
                    open_interest: rows.last().1.open_interest,
                    volume_24h: rows.last().1.volume_24h,
                    timestamp_ms: rows.last().1.timestamp_ms,
                },
            ),
            None => init,
        }
    }
}

/// Join symbol-keyed stats rows to market identifiers.
pub fn resolve_market_ids(
    markets: &Vec<MarketRef>,
    rows: &Vec<(String, NormalizedMarketStats)>,
) -> (r: Vec<StatsRow>)
    ensures
        r@ == resolve_stats_rows(rows@, markets@),
{
    let mut out: Vec<StatsRow> = Vec::new();
    let n = rows.len();
    let mut i: usize = 0;
    while i < n
        invariant
            0 <= i <= n,
            n == rows@.len(),
            out@ == resolve_stats_rows(rows@.subrange(0, i as int), markets@),
        decreases n - i,
    {
        let (sym, stat) = &rows[i];
        let ghost prefix = rows@.subrange(0, i as int);
        let ghost prefix1 = rows@.subrange(0, i + 1);
        assert(prefix1.drop_last() =~= prefix);
        assert(prefix1.last() == rows@[i as int]);
        match find_market_id(markets, sym.as_str()) {
            Some(id) => {
                out.push(
                    StatsRow {
                        market_id: id,
                        open_interest: stat.open_interest,
                        volume_24h: stat.volume_24h,
                        timestamp_ms: stat.timestamp_ms,
                    },
                );
                assert(out@ =~= resolve_stats_rows(prefix1, markets@));
            },
            None => {
                assert(out@ =~= resolve_stats_rows(prefix1, markets@));
            },
        }
        i += 1;
    }
    assert(rows@.subrange(0, n as int) =~= rows@);
    out
}

/// The distinct base-asset symbols of a market list, first occurrence
/// first.
pub open spec fn dedup_symbols(xs: Seq<Seq<char>>) -> Seq<Seq<char>>
    decreases xs.len(),
{
    if xs.len() == 0 {
        Seq::empty()
    } else {
        let init = dedup_symbols(xs.drop_last());
        if init.contains(xs.last()) {
            init
        } else {
            init.push(xs.last())
        }
    }
}

/// Collect each base-asset symbol of the market list once, keeping first
/// occurrences in order, as the token upsert deduplicates before writing.
pub fn unique_symbols(markets: &Vec<NormalizedMarket>) -> (r: Vec<String>)
    ensures
        r@.map_values(|s: String| s@) == dedup_symbols(
            markets@.map_values(|m: NormalizedMarket| m.symbol@),
        ),
{
    let ghost xs = markets@.map_values(|m: NormalizedMarket| m.symbol@);
    let mut out: Vec<String> = Vec::new();
    let n = markets.len();
    let mut i: usize = 0;
    while i < n
        invariant
            0 <= i <= n,
            n == markets@.len(),
            xs == markets@.map_values(|m: NormalizedMarket| m.symbol@),
            out@.map_values(|s: String| s@) == dedup_symbols(xs.subrange(0, i as int)),
        decreases n - i,
    {
        let sym = &markets[i].symbol;
        let ghost prefix = xs.subrange(0, i as int);
        let ghost prefix1 = xs.subrange(0, i + 1);
        assert(prefix1.drop_last() =~= prefix);
        assert(prefix1.last() == xs[i as int]);
        let ghost seen = out@.map_values(|s: String| s@);
        let mut dup = false;
        let m = out.len();
        let mut j: usize = 0;
        while j < m
            invariant
                0 <= j <= m,
                m == out@.len(),
                seen == out@.map_values(|s: String| s@),
                sym@ == xs[i as int],
                dup == exists|l: int| 0 <= l < j && #[trigger] seen[l] == sym@,
            decreases m - j,
        {
            if str_eq(out[j].as_str(), sym.as_str()) {
                assert(seen[j as int] == sym@);
                dup = true;
            }
            j += 1;
        }
        if !dup {
            assert(!seen.contains(sym@));
            out.push(sym.clone());
            assert(out@.map_values(|s: String| s@) =~= seen.push(sym@));
        } else {
            assert(seen.contains(sym@));
        }
        i += 1;
    }
    assert(xs.subrange(0, n as int) =~= xs);
    out
}

/// A market row ready for the markets upsert: the resolved token, the
/// exchange-native symbol and the activity flag.
#[derive(Clone, Debug)]
pub struct MarketUpsertRow {
    pub token_id: i32,
    pub market_symbol: String,
    pub is_active: bool,
}

/// The identifier of the first token row carrying the given symbol.
pub open spec fn find_token_id_from(tokens: Seq<(String, i32)>, sym: Seq<char>, i: int) -> Option<
    i32,
>
    decreases tokens.len() - i,
{
    if i < 0 || i >= tokens.len() {
        None
    } else if tokens[i].0@ == sym {
        Some(tokens[i].1)
    } else {
        find_token_id_from(tokens, sym, i + 1)
    }
}

/// The market rows of an upsert, each joined to its token identifier;
/// `None` when some market's base asset has no token row.
pub open spec fn spec_resolve_token_ids(
    markets: Seq<NormalizedMarket>,
    tokens: Seq<(String, i32)>,
) -> Option<Seq<MarketUpsertRow>>
    decreases markets.len(),
{
    if markets.len() == 0 {
        Some(Seq::empty())
    } else {
        match (
            spec_resolve_token_ids(markets.drop_last(), tokens),
            find_token_id_from(tokens, markets.last().symbol@, 0),
        ) {
            (Some(init), Some(id)) => Some(
                init.push(
                    MarketUpsertRow {
                        token_id: id,
                        market_symbol: markets.last().market_symbol,
                        is_active: markets.last().is_active,
                    },
                ),
            ),
            _ => None,
        }
    }
}

/// Join each market to its token row by base-asset symbol, building the
/// rows of the markets upsert. Returns `None` when a token row is
/// missing, which callers treat as a storage error rather than writing a
/// dangling reference.
pub fn resolve_token_ids(
    markets: &Vec<NormalizedMarket>,
    tokens: &Vec<(String, i32)>,
) -> (r: Option<Vec<MarketUpsertRow>>)
    ensures
        match r {
            Some(v) => spec_resolve_token_ids(markets@, tokens@) == Some(v@),
            None => spec_resolve_token_ids(markets@, tokens@) is None,
        },
{
    let mut out: Vec<MarketUpsertRow> = Vec::new();
    let n = markets.len();
    let mut i: usize = 0;
    while i < n
        invariant
            0 <= i <= n,
            n == markets@.len(),
            spec_resolve_token_ids(markets@.subrange(0, i as int), tokens@) == Some(out@),
        decreases n - i,
    {
        let m = &markets[i];
        let ghost prefix = markets@.subrange(0, i as int);
        let ghost prefix1 = markets@.subrange(0, i + 1);
        assert(prefix1.drop_last() =~= prefix);
        assert(prefix1.last() == markets@[i as int]);
        match find_token_id(tokens, m.symbol.as_str()) {
            Some(id) => {
                out.push(
                    MarketUpsertRow {
                        token_id: id,
                        market_symbol: m.market_symbol.clone(),
                        is_active: m.is_active,
                    },
                );
                assert(out@ =~= spec_resolve_token_ids(prefix, tokens@).unwrap().push(
                    MarketUpsertRow {
                        token_id: id,
                        market_symbol: markets@[i as int].market_symbol,
                        is_active: markets@[i as int].is_active,
                    },
                ));
            },
            None => {
                proof {
                    lemma_resolve_token_fail(markets@, tokens@, i as int);
                }
                return None;
            },
        }
        i += 1;
    }
    assert(markets@.subrange(0, n as int) =~= markets@);
    Some(out)
}

/// One missing token makes the whole upsert unresolvable.
proof fn lemma_resolve_token_fail(markets: Seq<NormalizedMarket>, tokens: Seq<(String, i32)>, i: int)
    requires
        0 <= i < markets.len(),
        find_token_id_from(tokens, markets[i].symbol@, 0) is None,
    ensures
        spec_resolve_token_ids(markets, tokens) is None,
    decreases markets.len(),
{
    if i < markets.len() - 1 {
        assert(markets.drop_last()[i] == markets[i]);
        lemma_resolve_token_fail(markets.drop_last(), tokens, i);
    }
}

/// Look up a token identifier by symbol.
pub fn find_token_id(tokens: &Vec<(String, i32)>, sym: &str) -> (r: Option<i32>)
    ensures
        r == find_token_id_from(tokens@, sym@, 0),
{
    let n = tokens.len();
    let mut i: usize = 0;
    while i < n
        invariant
            0 <= i <= n,
            n == tokens@.len(),
            find_token_id_from(tokens@, sym@, 0) == find_token_id_from(tokens@, sym@, i as int),
        decreases n - i,
    {
        let t = &tokens[i];
        if str_eq(t.0.as_str(), sym) {
            return Some(t.1);
        }
        i += 1;
    }
    None
}

/// Every row of the batch belongs to the one market.
pub open spec fn batch_market(b: Seq<FundingRow>, mid: int) -> bool {
    forall|i: int| 0 <= i < b.len() ==> (#[trigger] b[i]).market_id == mid
}

/// Batches of distinct markets are key-disjoint: a storage key names its
/// market.
pub proof fn lemma_per_market_batches_disjoint(bs: Seq<Seq<FundingRow>>, mids: Seq<int>)
    requires
        bs.len() == mids.len(),
        forall|i: int| 0 <= i < bs.len() ==> batch_market(#[trigger] bs[i], mids[i]),
        forall|i: int, j: int| 0 <= i < j < mids.len() ==> mids[i] != mids[j],
    ensures
        batches_key_disjoint(bs),
{
    assert forall|i: int, j: int|
        0 <= i < bs.len() && 0 <= j < bs.len() && i != j implies key_disjoint(
        #[trigger] bs[i],
        #[trigger] bs[j],
    ) by {
        assert forall|k: (int, int)| !(#[trigger] has_key(bs[i], k) && #[trigger] has_key(
            bs[j],
            k,
        )) by {
            if has_key(bs[i], k) && has_key(bs[j], k) {
                lemma_some_key_witness(bs[i], k);
                lemma_some_key_witness(bs[j], k);
                let wi = choose|w: int| 0 <= w < bs[i].len() && row_key(#[trigger] bs[i][w]) == k;
                let wj = choose|w: int| 0 <= w < bs[j].len() && row_key(#[trigger] bs[j][w]) == k;
                assert(bs[i][wi].market_id == mids[i]);
                assert(bs[j][wj].market_id == mids[j]);
                assert(mids[i] == k.0 && mids[j] == k.0);
                if i < j {
                    assert(mids[i] != mids[j]);
                } else {
                    assert(mids[j] != mids[i]);
                }
            }
        }
    }
}

} // verus!

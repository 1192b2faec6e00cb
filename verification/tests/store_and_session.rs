use funding_backend::decimal::Dec;
use funding_backend::model::{MarketRef, NormalizedFundingRate, NormalizedMarket, NormalizedMarketStats};
use funding_backend::orchestrator::{default_sync_config, ExchangeMeta, FundingSession, SyncPhase};
use funding_backend::store::{
    find_market_id, resolve_token_ids, unique_symbols, FundingRow, FundingStore, StatsRow,
    StatsStore,
};
use funding_backend::time_windows::TimeSpec;

fn dec(mantissa: i128, scale: u32) -> Dec {
    Dec { mantissa, scale }
}

fn row(market_id: i32, ts: i64, mantissa: i128) -> FundingRow {
    FundingRow { market_id, rate: dec(mantissa, 4), timestamp_ms: ts }
}

#[test]
fn store_round_trip_reads_back_exactly() {
    let mut store = FundingStore::new();
    let rows = vec![row(1, 1_700_000_000_000, 125)];
    store.insert_funding_rates(&rows);
    assert_eq!(store.len(), 1);
    assert_eq!(store.get(1, 1_700_000_000_000), Some(dec(125, 4)));
    assert_eq!(store.get(1, 1_700_000_000_001), None);
    assert_eq!(store.get(2, 1_700_000_000_000), None);
}

#[test]
fn store_insert_is_idempotent() {
    let mut store = FundingStore::new();
    let rows = vec![row(1, 10, 1), row(1, 20, 2), row(2, 10, 3)];
    store.insert_funding_rates(&rows);
    let count_once = store.len();
    store.insert_funding_rates(&rows);
    assert_eq!(store.len(), count_once);
    assert_eq!(store.len(), 3);
    assert_eq!(store.get(1, 20), Some(dec(2, 4)));
}

#[test]
fn store_overlapping_batches_store_union() {
    let mut store = FundingStore::new();
    store.insert_funding_rates(&vec![row(1, 10, 1), row(1, 20, 2)]);
    store.insert_funding_rates(&vec![row(1, 20, 2), row(1, 30, 3)]);
    assert_eq!(store.len(), 3);
}

#[test]
fn store_first_write_wins_on_conflict() {
    let mut store = FundingStore::new();
    store.insert_funding_rates(&vec![row(7, 100, 111), row(7, 100, 222)]);
    assert_eq!(store.len(), 1);
    assert_eq!(store.get(7, 100), Some(dec(111, 4)));
    store.insert_funding_rates(&vec![row(7, 100, 333)]);
    assert_eq!(store.get(7, 100), Some(dec(111, 4)));
}

#[test]
fn store_empty_insert_is_noop() {
    let mut store = FundingStore::new();
    store.insert_funding_rates(&Vec::new());
    assert_eq!(store.len(), 0);
}

#[test]
fn store_chunked_insert_equals_whole_insert() {
    let rows: Vec<FundingRow> = (0..25).map(|i| row(1 + (i % 3), 1000 + i as i64, i as i128)).collect();
    let mut whole = FundingStore::new();
    whole.insert_funding_rates(&rows);
    let mut chunked = FundingStore::new();
    chunked.insert_funding_rates_chunked(&rows, 4);
    assert_eq!(whole.len(), chunked.len());
    for r in &rows {
        assert_eq!(
            whole.get(r.market_id, r.timestamp_ms),
            chunked.get(r.market_id, r.timestamp_ms)
        );
    }
}

#[test]
fn store_last_timestamp_is_max_per_market() {
    let mut store = FundingStore::new();
    assert_eq!(store.last_timestamp(1), None);
    store.insert_funding_rates(&vec![row(1, 30, 1), row(1, 10, 2), row(2, 99, 3), row(1, 20, 4)]);
    assert_eq!(store.last_timestamp(1), Some(30));
    assert_eq!(store.last_timestamp(2), Some(99));
    assert_eq!(store.last_timestamp(3), None);
}

fn stats_row(market_id: i32, ts: i64) -> StatsRow {
    StatsRow {
        market_id,
        open_interest: Some(dec(5, 0)),
        volume_24h: None,
        timestamp_ms: ts,
    }
}

#[test]
fn stats_store_insert_and_conflict_skip() {
    let mut store = StatsStore::new();
    store.insert_market_stats(&vec![stats_row(1, 10), stats_row(1, 10), stats_row(2, 10)]);
    assert_eq!(store.len(), 2);
    assert!(store.contains(1, 10));
    assert!(store.contains(2, 10));
    assert!(!store.contains(3, 10));
}

fn norm_stats(sym: &str) -> NormalizedMarketStats {
    NormalizedMarketStats {
        market_symbol: sym.to_string(),
        open_interest: Some(dec(1, 0)),
        volume_24h: Some(dec(2, 0)),
        timestamp_ms: 77,
    }
}

#[test]
fn stats_by_symbol_joins_and_drops_unmatched() {
    let markets = vec![
        MarketRef { id: 11, market_symbol: "BTC-USD".to_string() },
        MarketRef { id: 22, market_symbol: "ETH-USD".to_string() },
    ];
    let rows = vec![
        ("BTC-USD".to_string(), norm_stats("BTC-USD")),
        ("DOGE-USD".to_string(), norm_stats("DOGE-USD")),
        ("ETH-USD".to_string(), norm_stats("ETH-USD")),
    ];
    let mut store = StatsStore::new();
    store.insert_market_stats_by_symbol(&markets, &rows);
    assert_eq!(store.len(), 2);
    assert!(store.contains(11, 77));
    assert!(store.contains(22, 77));
}

#[test]
fn find_market_id_first_match() {
    let markets = vec![
        MarketRef { id: 5, market_symbol: "A".to_string() },
        MarketRef { id: 6, market_symbol: "B".to_string() },
        MarketRef { id: 7, market_symbol: "A".to_string() },
    ];
    assert_eq!(find_market_id(&markets, "A"), Some(5));
    assert_eq!(find_market_id(&markets, "B"), Some(6));
    assert_eq!(find_market_id(&markets, "C"), None);
}

fn market(exchange: &str, symbol: &str, market_symbol: &str) -> NormalizedMarket {
    NormalizedMarket {
        exchange: exchange.to_string(),
        symbol: symbol.to_string(),
        market_symbol: market_symbol.to_string(),
        base_currency: symbol.to_string(),
        quote_currency: "USD".to_string(),
        is_active: true,
    }
}

#[test]
fn unique_symbols_dedups_in_first_occurrence_order() {
    let markets = vec![
        market("paradex", "BTC", "BTC-USD-PERP"),
        market("paradex", "ETH", "ETH-USD-PERP"),
        market("paradex", "BTC", "BTC-USDT-PERP"),
    ];
    assert_eq!(unique_symbols(&markets), vec!["BTC".to_string(), "ETH".to_string()]);
}

#[test]
fn resolve_token_ids_joins_or_fails() {
    let markets = vec![market("paradex", "BTC", "BTC-USD-PERP"), market("paradex", "ETH", "ETH-USD-PERP")];
    let tokens = vec![("BTC".to_string(), 1), ("ETH".to_string(), 2)];
    let rows = resolve_token_ids(&markets, &tokens).unwrap();
    assert_eq!(rows.len(), 2);
    assert_eq!(rows[0].token_id, 1);
    assert_eq!(rows[0].market_symbol, "BTC-USD-PERP");
    assert!(rows[0].is_active);
    assert_eq!(rows[1].token_id, 2);

    let missing = vec![("BTC".to_string(), 1)];
    assert!(resolve_token_ids(&markets, &missing).is_none());
}

#[test]
fn exchange_interval_normalization_is_idempotent() {
    let mut meta = ExchangeMeta { id: 1, name: "Paradex".to_string(), funding_interval_minutes: Some(60) };
    assert!(meta.normalize_funding_interval());
    assert_eq!(meta.funding_interval_minutes, Some(480));
    assert!(!meta.normalize_funding_interval());
    assert_eq!(meta.funding_interval_minutes, Some(480));
}

fn funding(symbol: &str, ts: i64, mantissa: i128) -> NormalizedFundingRate {
    NormalizedFundingRate {
        market_symbol: symbol.to_string(),
        rate: dec(mantissa, 4),
        timestamp_ms: ts,
    }
}

fn session_markets() -> Vec<MarketRef> {
    vec![
        MarketRef { id: 1, market_symbol: "BTC-USD-PERP".to_string() },
        MarketRef { id: 2, market_symbol: "ETH-USD-PERP".to_string() },
        MarketRef { id: 3, market_symbol: "SOL-USD-PERP".to_string() },
    ]
}

fn per_market_rows(i: usize) -> Vec<NormalizedFundingRate> {
    match i {
        0 => vec![funding("BTC-USD-PERP", 10, 1), funding("BTC-USD-PERP", 20, 2)],
        1 => vec![funding("ETH-USD-PERP", 10, 3)],
        _ => vec![funding("SOL-USD-PERP", 30, 4), funding("SOL-USD-PERP", 40, 5)],
    }
}

/// Drive one full session with the given concurrency cap, completing
/// in-flight tasks in reverse dispatch order when more than one is out.
fn run_session(cap: usize) -> FundingStore {
    let mut session = FundingSession::new(9, TimeSpec::SinceLastOrLookbackHours(24), 1_700_003_600_000);
    assert_eq!(session.phase, SyncPhase::ListingMarkets);
    session.markets_listed(session_markets());
    assert_eq!(session.phase, SyncPhase::Fetching);

    let mut pending: Vec<usize> = Vec::new();
    loop {
        while let Some(i) = session.next_task(cap) {
            pending.push(i);
        }
        if pending.is_empty() {
            break;
        }
        // completion order differs from dispatch order when cap > 1
        let i = pending.pop().unwrap();
        let rows = per_market_rows(i);
        session.complete_fetch(i, &rows);
    }
    assert!(session.all_done());
    let collected = session.collect();
    assert_eq!(session.phase, SyncPhase::Persisting);
    let mut store = FundingStore::new();
    store.insert_funding_rates_chunked(&collected, default_sync_config().chunk_size);
    session.persisted();
    assert_eq!(session.phase, SyncPhase::Done);
    store
}

#[test]
fn session_concurrency_cap_does_not_change_persisted_rows() {
    let sequential = run_session(1);
    let concurrent = run_session(16);
    assert_eq!(sequential.len(), concurrent.len());
    assert_eq!(sequential.len(), 5);
    for (mid, ts) in [(1, 10), (1, 20), (2, 10), (3, 30), (3, 40)] {
        assert_eq!(sequential.get(mid, ts), concurrent.get(mid, ts));
        assert!(sequential.get(mid, ts).is_some());
    }
}

#[test]
fn session_empty_market_set_is_done_immediately() {
    let mut session = FundingSession::new(9, TimeSpec::LookbackHours(1), 1000);
    session.markets_listed(Vec::new());
    assert_eq!(session.phase, SyncPhase::Done);
}

#[test]
fn session_inverted_window_skips_and_writes_nothing() {
    let mut session = FundingSession::new(
        9,
        TimeSpec::Between { start_ms: 50, end_ms: 10 },
        1000,
    );
    session.markets_listed(vec![MarketRef { id: 1, market_symbol: "BTC-USD-PERP".to_string() }]);
    let i = session.next_task(16).unwrap();
    // the resolved window is inverted: nothing to do for this market
    assert_eq!(session.window_for(None), None);
    session.complete_skip(i);
    assert!(session.all_done());
    let collected = session.collect();
    assert!(collected.is_empty());
    let mut store = FundingStore::new();
    store.insert_funding_rates(&collected);
    assert_eq!(store.len(), 0);
}

#[test]
fn session_window_for_resolves_from_last_timestamp() {
    let session = FundingSession::new(
        9,
        TimeSpec::SinceLastOrLookbackHours(24),
        1_700_003_600_000,
    );
    assert_eq!(
        session.window_for(Some(1_700_000_000_000)),
        Some((1_700_000_000_001, 1_700_003_600_000))
    );
}

#[test]
fn session_next_task_respects_cap() {
    let mut session = FundingSession::new(9, TimeSpec::LookbackHours(1), 1000);
    session.markets_listed(session_markets());
    let a = session.next_task(2);
    let b = session.next_task(2);
    let c = session.next_task(2);
    assert_eq!(a, Some(0));
    assert_eq!(b, Some(1));
    assert_eq!(c, None);
    session.complete_fetch(0, &Vec::new());
    assert_eq!(session.next_task(2), Some(2));
}

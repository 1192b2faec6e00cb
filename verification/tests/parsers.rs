use funding_backend::decimal::Dec;
use funding_backend::extended::{
    get_public_url as extended_url, parse_extended_funding, parse_extended_market_stats,
    parse_extended_markets, ApiEnvironment as ExtendedEnv, PublicEndpoint as ExtendedEndpoint,
};
use funding_backend::model::SyncError;
use funding_backend::paradex::{
    get_public_url as paradex_url, parse_paradex_funding, parse_paradex_market_stats,
    parse_paradex_markets, perp_symbol, ApiEnvironment as ParadexEnv,
    PublicEndpoint as ParadexEndpoint,
};

const NOW_MS: i64 = 1_700_003_600_000;

#[test]
fn paradex_urls() {
    assert_eq!(
        paradex_url(ParadexEndpoint::Markets, ParadexEnv::Mainnet),
        "https://api.prod.paradex.trade/v1/markets"
    );
    assert_eq!(
        paradex_url(ParadexEndpoint::FundingData, ParadexEnv::Testnet),
        "https://api.testnet.paradex.trade/v1/funding/data"
    );
    assert_eq!(
        paradex_url(ParadexEndpoint::MarketsSummary, ParadexEnv::Mainnet),
        "https://api.prod.paradex.trade/v1/markets/summary"
    );
}

#[test]
fn extended_urls() {
    assert_eq!(
        extended_url(ExtendedEndpoint::Markets, ExtendedEnv::Mainnet),
        "https://api.extended.exchange/api/v1/info/markets"
    );
    assert_eq!(
        extended_url(ExtendedEndpoint::MarketStats("BTC-USD".to_string()), ExtendedEnv::Mainnet),
        "https://api.extended.exchange/api/v1/info/markets/BTC-USD/stats"
    );
    assert_eq!(
        extended_url(ExtendedEndpoint::Funding("BTC-USD".to_string()), ExtendedEnv::Testnet),
        "https://api.starknet.sepolia.extended.exchange/api/v1/info/BTC-USD/funding"
    );
    assert_eq!(
        extended_url(ExtendedEndpoint::OpenInterest("ETH-USD".to_string()), ExtendedEnv::Mainnet),
        "https://api.extended.exchange/api/v1/info/ETH-USD/open-interests"
    );
}

#[test]
fn perp_symbol_suffix_match_is_case_insensitive() {
    assert!(perp_symbol("BTC-USD-PERP"));
    assert!(perp_symbol("btc-usd-perp"));
    assert!(perp_symbol("Sol-Usd-Perps"));
    assert!(!perp_symbol("BTC-USD"));
    assert!(!perp_symbol("PERP-USD"));
}

#[test]
fn paradex_markets_filters_to_perpetuals() {
    let raw = br#"{"results":[
        {"symbol":"BTC-USD-PERP","base_currency":"BTC","quote_currency":"USD","asset_kind":"PERP"},
        {"symbol":"ETH-USD","base_currency":"ETH","quote_currency":"USD"},
        {"symbol":"SOL-USD-PERP","base_currency":"SOL","quote_currency":"USD","asset_kind":null}
    ]}"#;
    let markets = parse_paradex_markets(raw).unwrap();
    assert_eq!(markets.len(), 2);
    assert_eq!(markets[0].exchange, "paradex");
    assert_eq!(markets[0].symbol, "BTC");
    assert_eq!(markets[0].market_symbol, "BTC-USD-PERP");
    assert_eq!(markets[0].base_currency, "BTC");
    assert_eq!(markets[0].quote_currency, "USD");
    assert!(markets[0].is_active);
    assert_eq!(markets[1].market_symbol, "SOL-USD-PERP");
}

#[test]
fn paradex_markets_missing_field_is_decode_error() {
    let raw = br#"{"results":[{"symbol":"BTC-USD-PERP","base_currency":"BTC"}]}"#;
    assert!(matches!(parse_paradex_markets(raw), Err(SyncError::Decode)));
}

#[test]
fn paradex_markets_malformed_json_is_decode_error() {
    assert!(matches!(parse_paradex_markets(b"{nonsense"), Err(SyncError::Decode)));
}

#[test]
fn paradex_funding_tolerates_number_and_string_rates() {
    let raw = br#"{"next":null,"prev":null,"results":[
        {"market":"BTC-USD-PERP","funding_index":"1.5","funding_premium":null,"funding_rate":"0.0001","created_at":1700000000000},
        {"market":"ETH-USD-PERP","funding_index":null,"funding_premium":null,"funding_rate":0.0025,"created_at":"1700000000001"}
    ]}"#;
    let rows = parse_paradex_funding(raw, NOW_MS).unwrap();
    assert_eq!(rows.len(), 2);
    assert_eq!(rows[0].market_symbol, "BTC-USD-PERP");
    assert_eq!(rows[0].rate, Dec { mantissa: 1, scale: 4 });
    assert_eq!(rows[0].timestamp_ms, 1_700_000_000_000);
    assert_eq!(rows[1].rate, Dec { mantissa: 25, scale: 4 });
    assert_eq!(rows[1].timestamp_ms, 1_700_000_000_001);
}

#[test]
fn paradex_funding_drops_null_rate_rows() {
    let raw = br#"{"next":null,"prev":null,"results":[
        {"market":"BTC-USD-PERP","funding_index":null,"funding_premium":null,"funding_rate":null,"created_at":1700000000000},
        {"market":"ETH-USD-PERP","funding_index":null,"funding_premium":null,"funding_rate":"0.5","created_at":1700000000001}
    ]}"#;
    let rows = parse_paradex_funding(raw, NOW_MS).unwrap();
    assert_eq!(rows.len(), 1);
    assert_eq!(rows[0].market_symbol, "ETH-USD-PERP");
}

#[test]
fn paradex_funding_missing_rate_field_is_decode_error() {
    let raw = br#"{"next":null,"prev":null,"results":[
        {"market":"BTC-USD-PERP","funding_index":null,"funding_premium":null,"created_at":1700000000000}
    ]}"#;
    assert!(matches!(parse_paradex_funding(raw, NOW_MS), Err(SyncError::Decode)));
}

#[test]
fn paradex_funding_out_of_range_timestamp_uses_now() {
    let raw = br#"{"next":null,"prev":null,"results":[
        {"market":"BTC-USD-PERP","funding_index":null,"funding_premium":null,"funding_rate":"1","created_at":9000000000000000000}
    ]}"#;
    let rows = parse_paradex_funding(raw, NOW_MS).unwrap();
    assert_eq!(rows[0].timestamp_ms, NOW_MS);
}

#[test]
fn paradex_stats_converts_open_interest_with_price_fallback() {
    let raw = br#"{"results":[
        {"symbol":"BTC-USD-PERP","open_interest":"2","volume_24h":"100","mark_price":"3"},
        {"symbol":"ETH-USD-PERP","open_interest":"5","volume_24h":"7","underlying_price":"11"},
        {"symbol":"SOL-USD","open_interest":"9","volume_24h":"9","mark_price":"9"}
    ]}"#;
    let rows = parse_paradex_market_stats(raw, NOW_MS).unwrap();
    // the spot row is filtered out
    assert_eq!(rows.len(), 2);
    assert_eq!(rows[0].market_symbol, "BTC-USD-PERP");
    assert_eq!(rows[0].open_interest, Some(Dec { mantissa: 6, scale: 0 }));
    assert_eq!(rows[0].volume_24h, Some(Dec { mantissa: 100, scale: 0 }));
    assert_eq!(rows[0].timestamp_ms, NOW_MS);
    assert_eq!(rows[1].open_interest, Some(Dec { mantissa: 55, scale: 0 }));
}

#[test]
fn paradex_stats_without_any_price_leaves_open_interest_absent() {
    // unit-conversion boundary: no mark, underlying or last-traded price
    let raw = br#"{"results":[
        {"symbol":"BTC-USD-PERP","open_interest":"2","volume_24h":"123.5"}
    ]}"#;
    let rows = parse_paradex_market_stats(raw, NOW_MS).unwrap();
    assert_eq!(rows.len(), 1);
    assert_eq!(rows[0].open_interest, None);
    assert_eq!(rows[0].volume_24h, Some(Dec { mantissa: 1235, scale: 1 }));
}

#[test]
fn paradex_stats_blank_string_is_absent_not_zero() {
    let raw = br#"{"results":[
        {"symbol":"BTC-USD-PERP","open_interest":"  ","volume_24h":null,"mark_price":"3"}
    ]}"#;
    let rows = parse_paradex_market_stats(raw, NOW_MS).unwrap();
    assert_eq!(rows[0].open_interest, None);
    assert_eq!(rows[0].volume_24h, None);
}

#[test]
fn extended_markets_read_quote_from_name() {
    let raw = br#"{"data":[
        {"name":"BTC-USD","assetName":"BTC","active":true},
        {"name":"SOLUSD","assetName":"SOL","active":false,"marketStats":{"openInterest":"10","dailyVolume":"20"}}
    ]}"#;
    let markets = parse_extended_markets(raw).unwrap();
    assert_eq!(markets.len(), 2);
    assert_eq!(markets[0].exchange, "extended");
    assert_eq!(markets[0].symbol, "BTC");
    assert_eq!(markets[0].market_symbol, "BTC-USD");
    assert_eq!(markets[0].quote_currency, "USD");
    assert!(markets[0].is_active);
    // a name with no dash yields an empty quote currency
    assert_eq!(markets[1].quote_currency, "");
    assert!(!markets[1].is_active);
}

#[test]
fn extended_funding_requires_string_rate_and_integer_timestamp() {
    let ok = br#"{"data":[{"m":"BTC-USD","f":"0.0001","T":1700000000000}]}"#;
    let rows = parse_extended_funding(ok, NOW_MS).unwrap();
    assert_eq!(rows.len(), 1);
    assert_eq!(rows[0].market_symbol, "BTC-USD");
    assert_eq!(rows[0].rate, Dec { mantissa: 1, scale: 4 });
    assert_eq!(rows[0].timestamp_ms, 1_700_000_000_000);

    let numeric_rate = br#"{"data":[{"m":"BTC-USD","f":0.0001,"T":1700000000000}]}"#;
    assert!(matches!(parse_extended_funding(numeric_rate, NOW_MS), Err(SyncError::Decode)));

    let string_ts = br#"{"data":[{"m":"BTC-USD","f":"0.0001","T":"1700000000000"}]}"#;
    assert!(matches!(parse_extended_funding(string_ts, NOW_MS), Err(SyncError::Decode)));
}

#[test]
fn extended_market_stats_pass_through() {
    let raw = br#"{"data":{"openInterest":"1234.5","dailyVolume":"999"}}"#;
    let stats = parse_extended_market_stats(raw, "BTC-USD", NOW_MS).unwrap();
    assert_eq!(stats.market_symbol, "BTC-USD");
    assert_eq!(stats.open_interest, Some(Dec { mantissa: 12345, scale: 1 }));
    assert_eq!(stats.volume_24h, Some(Dec { mantissa: 999, scale: 0 }));
    assert_eq!(stats.timestamp_ms, NOW_MS);

    let bad = br#"{"data":{"openInterest":"1234.5"}}"#;
    assert!(parse_extended_market_stats(bad, "BTC-USD", NOW_MS).is_err());
}

#[test]
fn scientific_notation_rates_decode() {
    let raw = br#"{"next":null,"prev":null,"results":[
        {"market":"BTC-USD-PERP","funding_index":null,"funding_premium":null,"funding_rate":1.25e-5,"created_at":1700000000000}
    ]}"#;
    let rows = parse_paradex_funding(raw, NOW_MS).unwrap();
    assert_eq!(rows[0].rate, Dec { mantissa: 125, scale: 7 });
}

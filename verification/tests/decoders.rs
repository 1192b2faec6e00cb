use funding_backend::decimal::Dec;
use funding_backend::json::{de_decimal, de_ms_i64, de_opt_decimal, json_parse, Json};
use funding_backend::model::{find_stats_for, market_symbols, NormalizedMarket, NormalizedMarketStats};
use funding_backend::text::{dash_segment_1, i64_to_dec_str, str_ends_with, u64_to_dec_str};

#[test]
fn de_decimal_accepts_number_or_numeric_string() {
    assert_eq!(de_decimal(&Json::Num("1.5".to_string())), Some(Dec { mantissa: 15, scale: 1 }));
    assert_eq!(de_decimal(&Json::Str("1.5".to_string())), Some(Dec { mantissa: 15, scale: 1 }));
    assert_eq!(de_decimal(&Json::Str("abc".to_string())), None);
    assert_eq!(de_decimal(&Json::Bool(true)), None);
    assert_eq!(de_decimal(&Json::Null), None);
}

#[test]
fn de_opt_decimal_treats_null_and_blank_as_absent() {
    assert_eq!(de_opt_decimal(&Json::Null), Some(None));
    assert_eq!(de_opt_decimal(&Json::Str("  ".to_string())), Some(None));
    assert_eq!(
        de_opt_decimal(&Json::Str(" 2.25 ".to_string())),
        Some(Some(Dec { mantissa: 225, scale: 2 }))
    );
    assert_eq!(
        de_opt_decimal(&Json::Num("7".to_string())),
        Some(Some(Dec { mantissa: 7, scale: 0 }))
    );
    // an undecodable value is an error, not "absent"
    assert_eq!(de_opt_decimal(&Json::Str("x".to_string())), None);
    assert_eq!(de_opt_decimal(&Json::Bool(false)), None);
}

#[test]
fn de_ms_i64_accepts_integer_or_numeric_string() {
    assert_eq!(de_ms_i64(&Json::Num("1700000000000".to_string())), Some(1_700_000_000_000));
    assert_eq!(de_ms_i64(&Json::Str("1700000000000".to_string())), Some(1_700_000_000_000));
    assert_eq!(de_ms_i64(&Json::Num("1.5".to_string())), None);
    assert_eq!(de_ms_i64(&Json::Null), None);
}

#[test]
fn json_get_returns_first_matching_field() {
    let doc = json_parse(br#"{"a":1,"b":"x"}"#).expect("valid json");
    match doc.get("b") {
        Some(Json::Str(s)) => assert_eq!(s, "x"),
        other => panic!("unexpected field value: {:?}", other),
    }
    assert!(doc.get("missing").is_none());
}

#[test]
fn json_parse_rejects_malformed_bytes() {
    assert!(json_parse(b"{oops").is_none());
    assert!(json_parse(b"").is_none());
    assert!(json_parse(b"[1,2,3]").is_some());
}

#[test]
fn dash_segments() {
    assert_eq!(dash_segment_1("BTC-USD"), "USD");
    assert_eq!(dash_segment_1("BTC-USD-PERP"), "USD");
    assert_eq!(dash_segment_1("BTCUSD"), "");
    assert_eq!(dash_segment_1("BTC-"), "");
    assert_eq!(dash_segment_1("-USD"), "USD");
}

#[test]
fn suffix_tests() {
    assert!(str_ends_with("BTC-USD-PERP", "-PERP"));
    assert!(!str_ends_with("BTC-USD-PERP", "-PERPS"));
    assert!(str_ends_with("x", ""));
    assert!(!str_ends_with("", "x"));
}

#[test]
fn integer_rendering() {
    assert_eq!(u64_to_dec_str(0), "0");
    assert_eq!(u64_to_dec_str(907), "907");
    assert_eq!(i64_to_dec_str(-5), "-5");
    assert_eq!(i64_to_dec_str(120), "120");
}

fn stats(sym: &str, ts: i64) -> NormalizedMarketStats {
    NormalizedMarketStats {
        market_symbol: sym.to_string(),
        open_interest: None,
        volume_24h: None,
        timestamp_ms: ts,
    }
}

#[test]
fn find_stats_for_picks_first_match() {
    let rows = vec![stats("A", 1), stats("B", 2), stats("A", 3)];
    let found = find_stats_for(&rows, "A").expect("present");
    assert_eq!(found.timestamp_ms, 1);
    assert!(find_stats_for(&rows, "C").is_none());
}

#[test]
fn market_symbols_maps_in_order() {
    let markets = vec![
        NormalizedMarket {
            exchange: "paradex".to_string(),
            symbol: "BTC".to_string(),
            market_symbol: "BTC-USD-PERP".to_string(),
            base_currency: "BTC".to_string(),
            quote_currency: "USD".to_string(),
            is_active: true,
        },
        NormalizedMarket {
            exchange: "paradex".to_string(),
            symbol: "ETH".to_string(),
            market_symbol: "ETH-USD-PERP".to_string(),
            base_currency: "ETH".to_string(),
            quote_currency: "USD".to_string(),
            is_active: true,
        },
    ];
    assert_eq!(
        market_symbols(&markets),
        vec!["BTC-USD-PERP".to_string(), "ETH-USD-PERP".to_string()]
    );
}

use funding_backend::args::{parse_exchange_add, parse_exchange_and_spec, parse_time_spec, ArgError};
use funding_backend::model::{supported_exchange, ExchangeKind};
use funding_backend::scheduler::{minutes_to_cron, CronError};
use funding_backend::text::{lower, parse_i64, parse_u64};
use funding_backend::time_windows::{ts_utc, TimeSpec, TS_MAX_MS};

fn strings(args: &[&str]) -> Vec<String> {
    args.iter().map(|s| s.to_string()).collect()
}

#[test]
fn since_last_concrete_scenario() {
    // last persisted = 1,700,000,000,000 ms, now = 1,700,003,600,000 ms
    let spec = TimeSpec::SinceLastOrLookbackHours(24);
    let (start, end) = spec.resolve(Some(1_700_000_000_000), 1_700_003_600_000);
    assert_eq!(start, 1_700_000_000_001);
    assert_eq!(end, 1_700_003_600_000);
}

#[test]
fn since_last_without_cursor_falls_back_to_lookback() {
    let spec = TimeSpec::SinceLastOrLookbackHours(2);
    let now: u64 = 1_700_000_000_000;
    let (start, end) = spec.resolve(None, now);
    assert_eq!(start, now - 2 * 3_600_000);
    assert_eq!(end, now);
}

#[test]
fn lookback_hours_window() {
    let spec = TimeSpec::LookbackHours(24);
    let now: u64 = 1_700_003_600_000;
    let (start, end) = spec.resolve(Some(5), now);
    assert_eq!(start, now - 24 * 3_600_000);
    assert_eq!(end, now);
}

#[test]
fn lookback_saturates_at_zero() {
    let spec = TimeSpec::LookbackHours(1);
    let (start, end) = spec.resolve(None, 1000);
    assert_eq!(start, 0);
    assert_eq!(end, 1000);
}

#[test]
fn between_passes_through_even_inverted() {
    let spec = TimeSpec::Between { start_ms: 50, end_ms: 10 };
    let (start, end) = spec.resolve(None, 999);
    assert_eq!((start, end), (50, 10));
    assert!(start > end);
}

#[test]
fn ts_utc_keeps_in_range_and_replaces_out_of_range() {
    assert_eq!(ts_utc(1_700_000_000_000, 42), 1_700_000_000_000);
    assert_eq!(ts_utc(TS_MAX_MS, 42), TS_MAX_MS);
    assert_eq!(ts_utc(TS_MAX_MS + 1, 42), 42);
    assert_eq!(ts_utc(i64::MIN, 42), 42);
}

#[test]
fn parse_time_spec_hours() {
    let args = strings(&["--hours", "5"]);
    assert_eq!(parse_time_spec(&args), Ok(Some(TimeSpec::LookbackHours(5))));
}

#[test]
fn parse_time_spec_between() {
    let args = strings(&["--between", "10", "20"]);
    assert_eq!(
        parse_time_spec(&args),
        Ok(Some(TimeSpec::Between { start_ms: 10, end_ms: 20 }))
    );
}

#[test]
fn parse_time_spec_since_last() {
    let args = strings(&["-s", "24"]);
    assert_eq!(
        parse_time_spec(&args),
        Ok(Some(TimeSpec::SinceLastOrLookbackHours(24)))
    );
}

#[test]
fn parse_time_spec_later_flag_wins() {
    let args = strings(&["--hours", "5", "--since-last", "7"]);
    assert_eq!(
        parse_time_spec(&args),
        Ok(Some(TimeSpec::SinceLastOrLookbackHours(7)))
    );
}

#[test]
fn parse_time_spec_ignores_unrelated_and_defaults_to_none() {
    let args = strings(&["--verbose", "extra"]);
    assert_eq!(parse_time_spec(&args), Ok(None));
}

#[test]
fn parse_time_spec_missing_value() {
    let args = strings(&["--hours"]);
    assert_eq!(parse_time_spec(&args), Err(ArgError::MissingValue));
    let args = strings(&["--between", "10"]);
    assert_eq!(parse_time_spec(&args), Err(ArgError::MissingValue));
}

#[test]
fn parse_time_spec_invalid_number() {
    let args = strings(&["--hours", "abc"]);
    assert_eq!(parse_time_spec(&args), Err(ArgError::InvalidNumber));
}

#[test]
fn parse_exchange_and_spec_both() {
    let args = strings(&["--exchange", "paradex", "--hours", "3"]);
    let (exch, spec) = parse_exchange_and_spec(&args).unwrap();
    assert_eq!(exch.as_deref(), Some("paradex"));
    assert_eq!(spec, Some(TimeSpec::LookbackHours(3)));
}

#[test]
fn parse_exchange_and_spec_neither() {
    let args = strings(&[]);
    let (exch, spec) = parse_exchange_and_spec(&args).unwrap();
    assert!(exch.is_none());
    assert!(spec.is_none());
}

#[test]
fn parse_exchange_add_requires_name() {
    let args = strings(&["--hours", "3"]);
    assert_eq!(parse_exchange_add(&args), Err(ArgError::MissingName));
    let args = strings(&["--name", "Extended", "--since-last", "48"]);
    let (name, spec) = parse_exchange_add(&args).unwrap();
    assert_eq!(name, "Extended");
    assert_eq!(spec, Some(TimeSpec::SinceLastOrLookbackHours(48)));
}

#[test]
fn lower_trims_and_folds() {
    assert_eq!(lower("  ParaDex "), "paradex");
    assert_eq!(lower("EXTENDED"), "extended");
    assert_eq!(lower(""), "");
}

#[test]
fn supported_exchange_lookup_is_case_insensitive() {
    assert_eq!(supported_exchange(" PARADEX "), Some(ExchangeKind::Paradex));
    assert_eq!(supported_exchange("extended"), Some(ExchangeKind::Extended));
    assert_eq!(supported_exchange("bybit"), None);
}

#[test]
fn parse_u64_accepts_plus_and_rejects_junk() {
    assert_eq!(parse_u64("42"), Some(42));
    assert_eq!(parse_u64("+42"), Some(42));
    assert_eq!(parse_u64(""), None);
    assert_eq!(parse_u64("+"), None);
    assert_eq!(parse_u64("4a2"), None);
    assert_eq!(parse_u64("18446744073709551615"), Some(u64::MAX));
    assert_eq!(parse_u64("18446744073709551616"), None);
}

#[test]
fn parse_i64_signs_and_bounds() {
    assert_eq!(parse_i64("-7"), Some(-7));
    assert_eq!(parse_i64("+7"), Some(7));
    assert_eq!(parse_i64("9223372036854775807"), Some(i64::MAX));
    assert_eq!(parse_i64("9223372036854775808"), None);
    assert_eq!(parse_i64("-9223372036854775808"), Some(i64::MIN));
    assert_eq!(parse_i64("-9223372036854775809"), None);
    assert_eq!(parse_i64("1.5"), None);
}

#[test]
fn minutes_to_cron_shapes() {
    assert_eq!(minutes_to_cron(60).unwrap(), "0 0 * * * *");
    assert_eq!(minutes_to_cron(480).unwrap(), "0 0 */8 * * *");
    assert_eq!(minutes_to_cron(5).unwrap(), "0 */5 * * * *");
    assert_eq!(minutes_to_cron(120).unwrap(), "0 0 */2 * * *");
    assert_eq!(minutes_to_cron(90), Err(CronError::UnsupportedInterval));
}

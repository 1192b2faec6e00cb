//! The Paradex adapter: endpoint URLs, the raw response schema, and the
//! verified normalizers that turn decoded JSON into canonical rows.

use vstd::prelude::*;

use crate::decimal::{dec_mul, dec_mul_of, opt_dec_wf, Dec};
use crate::json::{
    decode_all, de_ms_i64, de_opt_decimal, get_opt_dec_field, get_opt_str_field, get_str_field,
    json_get_spec, json_of, json_parse, lemma_decode_all_fail, spec_de_ms_i64, spec_de_opt_decimal,
    spec_opt_dec_field, spec_opt_str_field, spec_str_field, Json,
};
use crate::model::{
    FundingRateV, MarketStatsV, MarketV, NormalizedFundingRate, NormalizedMarket,
    NormalizedMarketStats, SyncError,
};
use crate::text::{ends_with_chars, str_ends_with, to_ascii_upper, upper_chars};
use crate::time_windows::{spec_ts_utc, ts_utc};

verus! {

// ------------------------------------------------------------------
// Endpoints
// ------------------------------------------------------------------

/// The Paradex REST base URLs.
pub struct ParadexAPIEndpoints {
    pub base_url: &'static str,
    pub testnet_base_url: &'static str,
}

/// The configured Paradex endpoints.
pub fn paradex_api_endpoints() -> (r: ParadexAPIEndpoints)
    ensures
        r.base_url@ == "https://api.prod.paradex.trade/v1"@,
        r.testnet_base_url@ == "https://api.testnet.paradex.trade/v1"@,
{
    ParadexAPIEndpoints {
        base_url: "https://api.prod.paradex.trade/v1",
        testnet_base_url: "https://api.testnet.paradex.trade/v1",
    }
}

/// Which deployment of the exchange to talk to.
#[derive(Clone, Copy, Debug, PartialEq, Eq, Structural)]
pub enum ApiEnvironment {
    Mainnet,
    Testnet,
}

/// The public REST endpoints used by this adapter.
#[derive(Clone, Debug)]
pub enum PublicEndpoint {
    Markets,
    MarketsSummary,
    FundingData,
}

/// The path of a public endpoint.
pub open spec fn spec_endpoint_path(e: PublicEndpoint) -> Seq<char> {
    match e {
        PublicEndpoint::Markets => "/markets"@,
        PublicEndpoint::MarketsSummary => "/markets/summary"@,
        PublicEndpoint::FundingData => "/funding/data"@,
    }
}

impl PublicEndpoint {
    /// The URL path for this endpoint.
    pub fn to_path(&self) -> (r: String)
        ensures
            r@ == spec_endpoint_path(*self),
    {
        match self {
            PublicEndpoint::Markets => "/markets".to_owned(),
            PublicEndpoint::MarketsSummary => "/markets/summary".to_owned(),
            PublicEndpoint::FundingData => "/funding/data".to_owned(),
        }
    }
}

/// The base URL for an environment.
pub open spec fn spec_base_url(env: ApiEnvironment) -> Seq<char> {
    match env {
        ApiEnvironment::Mainnet => "https://api.prod.paradex.trade/v1"@,
        ApiEnvironment::Testnet => "https://api.testnet.paradex.trade/v1"@,
    }
}

/// The full URL of a public endpoint in the given environment.
pub fn get_public_url(endpoint: PublicEndpoint, environment: ApiEnvironment) -> (r: String)
    ensures
        r@ == spec_base_url(environment) + spec_endpoint_path(endpoint),
{
    let eps = paradex_api_endpoints();
    let base: &'static str = match environment {
        ApiEnvironment::Mainnet => eps.base_url,
        ApiEnvironment::Testnet => eps.testnet_base_url,
    };
    base.to_owned().concat(endpoint.to_path().as_str())
}

// ------------------------------------------------------------------
// Instrument filtering
// ------------------------------------------------------------------

/// Whether a symbol names a perpetual contract: its ASCII uppercase form
/// ends in `-PERP` or `-PERPS`.
pub open spec fn spec_perp_symbol(s: Seq<char>) -> bool {
    ||| ends_with_chars(upper_chars(s), "-PERP"@)
    ||| ends_with_chars(upper_chars(s), "-PERPS"@)
}

/// Case-insensitive suffix test for perpetual-contract symbols.
pub fn perp_symbol(sym: &str) -> (r: bool)
    ensures
        r == spec_perp_symbol(sym@),
{
    let u = to_ascii_upper(sym);
    str_ends_with(u.as_str(), "-PERP") || str_ends_with(u.as_str(), "-PERPS")
}

// ------------------------------------------------------------------
// Raw market catalog schema
// ------------------------------------------------------------------

/// One market row of the `/markets` response.
#[derive(Clone, Debug)]
pub struct ParadexMarket {
    pub symbol: String,
    pub base_currency: String,
    pub quote_currency: String,
    pub asset_kind: Option<String>,
}

/// The mathematical shape of a `ParadexMarket`.
pub ghost struct ParadexMarketV {
    pub symbol: Seq<char>,
    pub base_currency: Seq<char>,
    pub quote_currency: Seq<char>,
    pub asset_kind: Option<Seq<char>>,
}

impl View for ParadexMarket {
    type V = ParadexMarketV;

    open spec fn view(&self) -> ParadexMarketV {
        ParadexMarketV {
            symbol: self.symbol@,
            base_currency: self.base_currency@,
            quote_currency: self.quote_currency@,
            asset_kind: match self.asset_kind {
                Some(s) => Some(s@),
                None => None,
            },
        }
    }
}

/// The `/markets` response body.
#[derive(Debug)]
pub struct ParadexMarketsResponse {
    pub results: Vec<ParadexMarket>,
}

/// A market row decoded from its JSON object: `symbol`, `base_currency`
/// and `quote_currency` are required strings; `asset_kind` is optional.
pub open spec fn spec_paradex_market_of(j: Json) -> Option<ParadexMarketV> {
    match (
        spec_str_field(j, "symbol"@),
        spec_str_field(j, "base_currency"@),
        spec_str_field(j, "quote_currency"@),
        spec_opt_str_field(j, "asset_kind"@),
    ) {
        (Some(symbol), Some(base_currency), Some(quote_currency), Some(asset_kind)) => Some(
            ParadexMarketV { symbol, base_currency, quote_currency, asset_kind },
        ),
        _ => None,
    }
}

/// Decode one market row.
pub fn paradex_market_from_json(j: &Json) -> (r: Option<ParadexMarket>)
    ensures
        match r {
            Some(m) => spec_paradex_market_of(*j) == Some(m@),
            None => spec_paradex_market_of(*j) is None,
        },
{
    let symbol = match get_str_field(j, "symbol") {
        Some(s) => s,
        None => {
            return None;
        },
    };
    let base_currency = match get_str_field(j, "base_currency") {
        Some(s) => s,
        None => {
            return None;
        },
    };
    let quote_currency = match get_str_field(j, "quote_currency") {
        Some(s) => s,
        None => {
            return None;
        },
    };
    let asset_kind = match get_opt_str_field(j, "asset_kind") {
        Some(k) => k,
        None => {
            return None;
        },
    };
    Some(ParadexMarket { symbol, base_currency, quote_currency, asset_kind })
}

/// The decoded `/markets` response: a `results` array of market rows.
pub open spec fn spec_paradex_markets_response(j: Json) -> Option<Seq<ParadexMarketV>> {
    match json_get_spec(j, "results"@) {
        Some(Json::Arr(rows)) => decode_all(rows@, |x: Json| spec_paradex_market_of(x)),
        _ => None,
    }
}

/// A catalog row mapped to the canonical market shape.
pub open spec fn spec_normalize_paradex_market(m: ParadexMarketV) -> MarketV {
    MarketV {
        exchange: "paradex"@,
        symbol: m.base_currency,
        market_symbol: m.symbol,
        base_currency: m.base_currency,
        quote_currency: m.quote_currency,
        is_active: true,
    }
}

/// The catalog restricted to perpetual contracts, in canonical shape.
pub open spec fn spec_normalized_paradex_markets(ms: Seq<ParadexMarketV>) -> Seq<MarketV>
    decreases ms.len(),
{
    if ms.len() == 0 {
        Seq::empty()
    } else {
        let init = spec_normalized_paradex_markets(ms.drop_last());
        if spec_perp_symbol(ms.last().symbol) {
            init.push(spec_normalize_paradex_market(ms.last()))
        } else {
            init
        }
    }
}

/// What parsing a `/markets` body yields: the decoded rows, filtered to
/// perpetual contracts and mapped to canonical markets; `None` exactly
/// when the bytes are not valid JSON of the expected schema.
pub open spec fn spec_parse_paradex_markets(bytes: Seq<u8>) -> Option<Seq<MarketV>> {
    match json_of(bytes) {
        Some(doc) => match spec_paradex_markets_response(doc) {
            Some(ms) => Some(spec_normalized_paradex_markets(ms)),
            None => None,
        },
        None => None,
    }
}

/// Parse a `/markets` response body into canonical markets, keeping only
/// perpetual contracts.
pub fn parse_paradex_markets(raw: &[u8]) -> (r: Result<Vec<NormalizedMarket>, SyncError>)
    ensures
        match r {
            Ok(v) => spec_parse_paradex_markets(raw@) == Some(
                v@.map_values(|m: NormalizedMarket| m@),
            ),
            Err(e) => e == SyncError::Decode && spec_parse_paradex_markets(raw@) is None,
        },
{
    let doc = match json_parse(raw) {
        Some(doc) => doc,
        None => {
            return Err(SyncError::Decode);
        },
    };
    let resp = match decode_paradex_markets(&doc) {
        Some(resp) => resp,
        None => {
            return Err(SyncError::Decode);
        },
    };
    let ghost ms = resp.results@.map_values(|m: ParadexMarket| m@);
    let mut out: Vec<NormalizedMarket> = Vec::new();
    let n = resp.results.len();
    let mut i: usize = 0;
    while i < n
        invariant
            0 <= i <= n,
            n == resp.results@.len(),
            ms == resp.results@.map_values(|m: ParadexMarket| m@),
            out@.map_values(|m: NormalizedMarket| m@) == spec_normalized_paradex_markets(
                ms.subrange(0, i as int),
            ),
        decreases n - i,
    {
        let m = &resp.results[i];
        let ghost prefix = ms.subrange(0, i as int);
        let ghost prefix1 = ms.subrange(0, i + 1);
        assert(prefix1.drop_last() =~= prefix);
        assert(prefix1.last() == m@);
        if perp_symbol(m.symbol.as_str()) {
            let row = NormalizedMarket {
                exchange: "paradex".to_owned(),
                symbol: m.base_currency.clone(),
                market_symbol: m.symbol.clone(),
                base_currency: m.base_currency.clone(),
                quote_currency: m.quote_currency.clone(),
                is_active: true,
            };
            out.push(row);
            assert(out@.map_values(|x: NormalizedMarket| x@) =~= spec_normalized_paradex_markets(
                prefix,
            ).push(spec_normalize_paradex_market(m@)));
        } else {
            assert(out@.map_values(|x: NormalizedMarket| x@) == spec_normalized_paradex_markets(
                prefix1,
            ));
        }
        i += 1;
    }
    assert(ms.subrange(0, n as int) =~= ms);
    Ok(out)
}

/// Decode the `/markets` response shape.
fn decode_paradex_markets(doc: &Json) -> (r: Option<ParadexMarketsResponse>)
    ensures
        match r {
            Some(resp) => spec_paradex_markets_response(*doc) == Some(
                resp.results@.map_values(|m: ParadexMarket| m@),
            ),
            None => spec_paradex_markets_response(*doc) is None,
        },
{
    let rows = match doc.get("results") {
        Some(Json::Arr(rows)) => rows,
        _ => {
            return None;
        },
    };
    let n = rows.len();
    let mut results: Vec<ParadexMarket> = Vec::new();
    let mut i: usize = 0;
    while i < n
        invariant
            0 <= i <= n,
            n == rows@.len(),
            json_get_spec(*doc, "results"@) == Some(Json::Arr(*rows)),
            decode_all(rows@.subrange(0, i as int), |x: Json| spec_paradex_market_of(x)) == Some(
                results@.map_values(|m: ParadexMarket| m@),
            ),
        decreases n - i,
    {
        let ghost prefix = rows@.subrange(0, i as int);
        let ghost prefix1 = rows@.subrange(0, i + 1);
        assert(prefix1.drop_last() =~= prefix);
        assert(prefix1.last() == rows@[i as int]);
        match paradex_market_from_json(&rows[i]) {
            Some(m) => {
                results.push(m);
                assert(results@.map_values(|x: ParadexMarket| x@) =~= decode_all(
                    prefix,
                    |x: Json| spec_paradex_market_of(x),
                ).unwrap().push(m@));
            },
            None => {
                proof {
                    lemma_decode_all_fail(rows@, |x: Json| spec_paradex_market_of(x), i as int);
                }
                return None;
            },
        }
        i += 1;
    }
    assert(rows@.subrange(0, n as int) =~= rows@);
    Some(ParadexMarketsResponse { results })
}

// ------------------------------------------------------------------
// Market summary (stats) schema
// ------------------------------------------------------------------

/// One row of the `/markets/summary` response: open interest is reported
/// in base-asset units, together with the price candidates used to convert
/// it to USD.
#[derive(Clone, Debug)]
pub struct ParadexMarketSummary {
    pub symbol: String,
    pub open_interest: Option<Dec>,
    pub volume_24h: Option<Dec>,
    pub mark_price: Option<Dec>,
    pub underlying_price: Option<Dec>,
    pub last_traded_price: Option<Dec>,
}

/// The mathematical shape of a `ParadexMarketSummary`.
pub ghost struct ParadexMarketSummaryV {
    pub symbol: Seq<char>,
    pub open_interest: Option<Dec>,
    pub volume_24h: Option<Dec>,
    pub mark_price: Option<Dec>,
    pub underlying_price: Option<Dec>,
    pub last_traded_price: Option<Dec>,
}

impl View for ParadexMarketSummary {
    type V = ParadexMarketSummaryV;

    open spec fn view(&self) -> ParadexMarketSummaryV {
        ParadexMarketSummaryV {
            symbol: self.symbol@,
            open_interest: self.open_interest,
            volume_24h: self.volume_24h,
            mark_price: self.mark_price,
            underlying_price: self.underlying_price,
            last_traded_price: self.last_traded_price,
        }
    }
}

/// The `/markets/summary` response body.
#[derive(Debug)]
pub struct ParadexSummaryResponse {
    pub results: Vec<ParadexMarketSummary>,
}

/// Every decimal of a summary row is well-formed.
pub open spec fn summary_wf(s: ParadexMarketSummaryV) -> bool {
    &&& opt_dec_wf(s.open_interest)
    &&& opt_dec_wf(s.volume_24h)
    &&& opt_dec_wf(s.mark_price)
    &&& opt_dec_wf(s.underlying_price)
    &&& opt_dec_wf(s.last_traded_price)
}

/// A summary row decoded from its JSON object: the symbol is a required
/// string; every numeric field is optional and tolerantly decoded.
pub open spec fn spec_paradex_summary_of(j: Json) -> Option<ParadexMarketSummaryV> {
    match (
        spec_str_field(j, "symbol"@),
        spec_opt_dec_field(j, "open_interest"@),
        spec_opt_dec_field(j, "volume_24h"@),
        spec_opt_dec_field(j, "mark_price"@),
        spec_opt_dec_field(j, "underlying_price"@),
        spec_opt_dec_field(j, "last_traded_price"@),
    ) {
        (
            Some(symbol),
            Some(open_interest),
            Some(volume_24h),
            Some(mark_price),
            Some(underlying_price),
            Some(last_traded_price),
        ) => Some(
            ParadexMarketSummaryV {
                symbol,
                open_interest,
                volume_24h,
                mark_price,
                underlying_price,
                last_traded_price,
            },
        ),
        _ => None,
    }
}

/// Decode one summary row.
pub fn paradex_summary_from_json(j: &Json) -> (r: Option<ParadexMarketSummary>)
    ensures
        match r {
            Some(s) => spec_paradex_summary_of(*j) == Some(s@) && summary_wf(s@),
            None => spec_paradex_summary_of(*j) is None,
        },
{
    let symbol = match get_str_field(j, "symbol") {
        Some(s) => s,
        None => {
            return None;
        },
    };
    let open_interest = match get_opt_dec_field(j, "open_interest") {
        Some(v) => v,
        None => {
            return None;
        },
    };
    let volume_24h = match get_opt_dec_field(j, "volume_24h") {
        Some(v) => v,
        None => {
            return None;
        },
    };
    let mark_price = match get_opt_dec_field(j, "mark_price") {
        Some(v) => v,
        None => {
            return None;
        },
    };
    let underlying_price = match get_opt_dec_field(j, "underlying_price") {
        Some(v) => v,
        None => {
            return None;
        },
    };
    let last_traded_price = match get_opt_dec_field(j, "last_traded_price") {
        Some(v) => v,
        None => {
            return None;
        },
    };
    Some(
        ParadexMarketSummary {
            symbol,
            open_interest,
            volume_24h,
            mark_price,
            underlying_price,
            last_traded_price,
        },
    )
}

/// The price used to convert open interest to USD: mark price, then
/// underlying price, then last traded price.
pub open spec fn spec_price_fallback(s: ParadexMarketSummaryV) -> Option<Dec> {
    match s.mark_price {
        Some(p) => Some(p),
        None => match s.underlying_price {
            Some(p) => Some(p),
            None => s.last_traded_price,
        },
    }
}

/// A summary row in canonical shape: open interest is converted from base
/// units to USD with the fallback price, and left absent when no price is
/// available (or the product overflows) rather than reported in the wrong
/// unit; the 24h volume, already in USD, passes through unchanged.
pub open spec fn spec_normalize_paradex_summary(s: ParadexMarketSummaryV, now_ms: int) -> MarketStatsV {
    let oi = match (s.open_interest, spec_price_fallback(s)) {
        (Some(oi), Some(px)) => dec_mul_of(oi, px),
        _ => None,
    };
    MarketStatsV {
        market_symbol: s.symbol,
        open_interest: oi,
        volume_24h: s.volume_24h,
        timestamp_ms: now_ms,
    }
}

/// Convert one summary row to canonical stats.
pub fn normalize_paradex_summary(s: &ParadexMarketSummary, now_ms: i64) -> (r:
    NormalizedMarketStats)
    requires
        summary_wf(s@),
    ensures
        r@ == spec_normalize_paradex_summary(s@, now_ms as int),
{
    let px = match s.mark_price {
        Some(p) => Some(p),
        None => match s.underlying_price {
            Some(p) => Some(p),
            None => s.last_traded_price,
        },
    };
    let oi = match (s.open_interest, px) {
        (Some(oi), Some(px)) => dec_mul(oi, px),
        _ => None,
    };
    NormalizedMarketStats {
        market_symbol: s.symbol.clone(),
        open_interest: oi,
        volume_24h: s.volume_24h,
        timestamp_ms: now_ms,
    }
}

/// A stats payload lacking the mark price, the underlying price and the
/// last traded price yields an absent open interest — never zero, never a
/// base-unit value — while an available 24h volume still passes through
/// unchanged.
pub proof fn lemma_unit_conversion_boundary(s: ParadexMarketSummaryV, now_ms: int)
    requires
        s.mark_price is None,
        s.underlying_price is None,
        s.last_traded_price is None,
    ensures
        spec_normalize_paradex_summary(s, now_ms).open_interest is None,
        spec_normalize_paradex_summary(s, now_ms).volume_24h == s.volume_24h,
{
}

/// The summary rows restricted to perpetual contracts, normalized.
pub open spec fn spec_normalized_paradex_stats(ss: Seq<ParadexMarketSummaryV>, now_ms: int) -> Seq<
    MarketStatsV,
>
    decreases ss.len(),
{
    if ss.len() == 0 {
        Seq::empty()
    } else {
        let init = spec_normalized_paradex_stats(ss.drop_last(), now_ms);
        if spec_perp_symbol(ss.last().symbol) {
            init.push(spec_normalize_paradex_summary(ss.last(), now_ms))
        } else {
            init
        }
    }
}

/// The decoded `/markets/summary` response: a `results` array of rows.
pub open spec fn spec_paradex_summary_response(j: Json) -> Option<Seq<ParadexMarketSummaryV>> {
    match json_get_spec(j, "results"@) {
        Some(Json::Arr(rows)) => decode_all(rows@, |x: Json| spec_paradex_summary_of(x)),
        _ => None,
    }
}

/// What parsing a `/markets/summary` body yields, given the current time:
/// decoded rows filtered to perpetual contracts and normalized; `None`
/// exactly when the bytes do not decode.
pub open spec fn spec_parse_paradex_market_stats(bytes: Seq<u8>, now_ms: int) -> Option<Seq<
    MarketStatsV,
>> {
    match json_of(bytes) {
        Some(doc) => match spec_paradex_summary_response(doc) {
            Some(ss) => Some(spec_normalized_paradex_stats(ss, now_ms)),
            None => None,
        },
        None => None,
    }
}

/// Parse a `/markets/summary` response body into canonical stats rows,
/// keeping only perpetual contracts. The summary carries no per-row
/// timestamp, so every row is stamped with the supplied current time.
pub fn parse_paradex_market_stats(raw: &[u8], now_ms: i64) -> (r: Result<
    Vec<NormalizedMarketStats>,
    SyncError,
>)
    ensures
        match r {
            Ok(v) => spec_parse_paradex_market_stats(raw@, now_ms as int) == Some(
                v@.map_values(|s: NormalizedMarketStats| s@),
            ),
            Err(e) => e == SyncError::Decode && spec_parse_paradex_market_stats(
                raw@,
                now_ms as int,
            ) is None,
        },
{
    let doc = match json_parse(raw) {
        Some(doc) => doc,
        None => {
            return Err(SyncError::Decode);
        },
    };
    let resp = match decode_paradex_summary(&doc) {
        Some(resp) => resp,
        None => {
            return Err(SyncError::Decode);
        },
    };
    let ghost ss = resp.results@.map_values(|s: ParadexMarketSummary| s@);
    let mut out: Vec<NormalizedMarketStats> = Vec::new();
    let n = resp.results.len();
    let mut i: usize = 0;
    while i < n
        invariant
            0 <= i <= n,
            n == resp.results@.len(),
            ss == resp.results@.map_values(|s: ParadexMarketSummary| s@),
            forall|k: int| 0 <= k < n ==> summary_wf(#[trigger] resp.results@[k]@),
            out@.map_values(|s: NormalizedMarketStats| s@) == spec_normalized_paradex_stats(
                ss.subrange(0, i as int),
                now_ms as int,
            ),
        decreases n - i,
    {
        let s = &resp.results[i];
        let ghost prefix = ss.subrange(0, i as int);
        let ghost prefix1 = ss.subrange(0, i + 1);
        assert(prefix1.drop_last() =~= prefix);
        assert(prefix1.last() == s@);
        if perp_symbol(s.symbol.as_str()) {
            let row = normalize_paradex_summary(s, now_ms);
            out.push(row);
            assert(out@.map_values(|x: NormalizedMarketStats| x@)
                =~= spec_normalized_paradex_stats(prefix, now_ms as int).push(
                spec_normalize_paradex_summary(s@, now_ms as int),
            ));
        } else {
            assert(out@.map_values(|x: NormalizedMarketStats| x@)
                == spec_normalized_paradex_stats(prefix1, now_ms as int));
        }
        i += 1;
    }
    assert(ss.subrange(0, n as int) =~= ss);
    Ok(out)
}

/// Decode the `/markets/summary` response shape.
fn decode_paradex_summary(doc: &Json) -> (r: Option<ParadexSummaryResponse>)
    ensures
        match r {
            Some(resp) => spec_paradex_summary_response(*doc) == Some(
                resp.results@.map_values(|s: ParadexMarketSummary| s@),
            ) && forall|k: int|
                0 <= k < resp.results@.len() ==> summary_wf(#[trigger] resp.results@[k]@),
            None => spec_paradex_summary_response(*doc) is None,
        },
{
    let rows = match doc.get("results") {
        Some(Json::Arr(rows)) => rows,
        _ => {
            return None;
        },
    };
    let n = rows.len();
    let mut results: Vec<ParadexMarketSummary> = Vec::new();
    let mut i: usize = 0;
    while i < n
        invariant
            0 <= i <= n,
            n == rows@.len(),
            json_get_spec(*doc, "results"@) == Some(Json::Arr(*rows)),
            decode_all(rows@.subrange(0, i as int), |x: Json| spec_paradex_summary_of(x)) == Some(
                results@.map_values(|s: ParadexMarketSummary| s@),
            ),
            forall|k: int| 0 <= k < results@.len() ==> summary_wf(#[trigger] results@[k]@),
        decreases n - i,
    {
        let ghost prefix = rows@.subrange(0, i as int);
        let ghost prefix1 = rows@.subrange(0, i + 1);
        assert(prefix1.drop_last() =~= prefix);
        assert(prefix1.last() == rows@[i as int]);
        match paradex_summary_from_json(&rows[i]) {
            Some(s) => {
                results.push(s);
                assert(results@.map_values(|x: ParadexMarketSummary| x@) =~= decode_all(
                    prefix,
                    |x: Json| spec_paradex_summary_of(x),
                ).unwrap().push(s@));
            },
            None => {
                proof {
                    lemma_decode_all_fail(rows@, |x: Json| spec_paradex_summary_of(x), i as int);
                }
                return None;
            },
        }
        i += 1;
    }
    assert(rows@.subrange(0, n as int) =~= rows@);
    Some(ParadexSummaryResponse { results })
}

// ------------------------------------------------------------------
// Funding history schema
// ------------------------------------------------------------------

/// One row of the `/funding/data` response.
#[derive(Clone, Debug)]
pub struct ParadexFunding {
    pub market: String,
    pub funding_index: Option<Dec>,
    pub funding_premium: Option<Dec>,
    pub funding_rate: Option<Dec>,
    pub created_at: i64,
}

/// The mathematical shape of a `ParadexFunding`.
pub ghost struct ParadexFundingV {
    pub market: Seq<char>,
    pub funding_index: Option<Dec>,
    pub funding_premium: Option<Dec>,
    pub funding_rate: Option<Dec>,
    pub created_at: int,
}

impl View for ParadexFunding {
    type V = ParadexFundingV;

    open spec fn view(&self) -> ParadexFundingV {
        ParadexFundingV {
            market: self.market@,
            funding_index: self.funding_index,
            funding_premium: self.funding_premium,
            funding_rate: self.funding_rate,
            created_at: self.created_at as int,
        }
    }
}

/// The `/funding/data` response body, a paginated list.
#[derive(Debug)]
pub struct ParadexFundingResponse {
    pub next: Option<String>,
    pub prev: Option<String>,
    pub results: Vec<ParadexFunding>,
}

/// A funding row decoded from its JSON object: the market is a required
/// string, the three funding figures must be present but may be null, and
/// the timestamp accepts integer or numeric-string milliseconds.
pub open spec fn spec_paradex_funding_of(j: Json) -> Option<ParadexFundingV> {
    let index = match json_get_spec(j, "funding_index"@) {
        Some(v) => spec_de_opt_decimal(v),
        None => None,
    };
    let premium = match json_get_spec(j, "funding_premium"@) {
        Some(v) => spec_de_opt_decimal(v),
        None => None,
    };
    let rate = match json_get_spec(j, "funding_rate"@) {
        Some(v) => spec_de_opt_decimal(v),
        None => None,
    };
    let created = match json_get_spec(j, "created_at"@) {
        Some(v) => spec_de_ms_i64(v),
        None => None,
    };
    match (spec_str_field(j, "market"@), index, premium, rate, created) {
        (Some(market), Some(funding_index), Some(funding_premium), Some(funding_rate), Some(
            created_at,
        )) => Some(
            ParadexFundingV {
                market,
                funding_index,
                funding_premium,
                funding_rate,
                created_at: created_at as int,
            },
        ),
        _ => None,
    }
}

/// Decode one funding row.
pub fn paradex_funding_from_json(j: &Json) -> (r: Option<ParadexFunding>)
    ensures
        match r {
            Some(f) => spec_paradex_funding_of(*j) == Some(f@),
            None => spec_paradex_funding_of(*j) is None,
        },
{
    let market = match get_str_field(j, "market") {
        Some(s) => s,
        None => {
            return None;
        },
    };
    let funding_index = match j.get("funding_index") {
        Some(v) => match de_opt_decimal(v) {
            Some(d) => d,
            None => {
                return None;
            },
        },
        None => {
            return None;
        },
    };
    let funding_premium = match j.get("funding_premium") {
        Some(v) => match de_opt_decimal(v) {
            Some(d) => d,
            None => {
                return None;
            },
        },
        None => {
            return None;
        },
    };
    let funding_rate = match j.get("funding_rate") {
        Some(v) => match de_opt_decimal(v) {
            Some(d) => d,
            None => {
                return None;
            },
        },
        None => {
            return None;
        },
    };
    let created_at = match j.get("created_at") {
        Some(v) => match de_ms_i64(v) {
            Some(t) => t,
            None => {
                return None;
            },
        },
        None => {
            return None;
        },
    };
    Some(ParadexFunding { market, funding_index, funding_premium, funding_rate, created_at })
}

/// The decoded `/funding/data` response: optional pagination cursors and a
/// `results` array of funding rows.
pub open spec fn spec_paradex_funding_response(j: Json) -> Option<Seq<ParadexFundingV>> {
    match (spec_opt_str_field(j, "next"@), spec_opt_str_field(j, "prev"@)) {
        (Some(_), Some(_)) => match json_get_spec(j, "results"@) {
            Some(Json::Arr(rows)) => decode_all(rows@, |x: Json| spec_paradex_funding_of(x)),
            _ => None,
        },
        _ => None,
    }
}

/// The funding rows in canonical shape: a row whose rate is null is
/// dropped — never defaulted to zero — and each kept row carries its
/// normalized timestamp.
pub open spec fn spec_normalized_paradex_funding(rows: Seq<ParadexFundingV>, now_ms: int) -> Seq<
    FundingRateV,
>
    decreases rows.len(),
{
    if rows.len() == 0 {
        Seq::empty()
    } else {
        let init = spec_normalized_paradex_funding(rows.drop_last(), now_ms);
        match rows.last().funding_rate {
            Some(rate) => init.push(
                FundingRateV {
                    market_symbol: rows.last().market,
                    rate,
                    timestamp_ms: spec_ts_utc(rows.last().created_at, now_ms),
                },
            ),
            None => init,
        }
    }
}

/// What parsing a `/funding/data` body yields, given the current time;
/// `None` exactly when the bytes do not decode.
pub open spec fn spec_parse_paradex_funding(bytes: Seq<u8>, now_ms: int) -> Option<Seq<
    FundingRateV,
>> {
    match json_of(bytes) {
        Some(doc) => match spec_paradex_funding_response(doc) {
            Some(rows) => Some(spec_normalized_paradex_funding(rows, now_ms)),
            None => None,
        },
        None => None,
    }
}

/// Parse a `/funding/data` response body into canonical funding rows,
/// dropping rows whose rate is absent.
pub fn parse_paradex_funding(raw: &[u8], now_ms: i64) -> (r: Result<
    Vec<NormalizedFundingRate>,
    SyncError,
>)
    ensures
        match r {
            Ok(v) => spec_parse_paradex_funding(raw@, now_ms as int) == Some(
                v@.map_values(|f: NormalizedFundingRate| f@),
            ),
            Err(e) => e == SyncError::Decode && spec_parse_paradex_funding(
                raw@,
                now_ms as int,
            ) is None,
        },
{
    let doc = match json_parse(raw) {
        Some(doc) => doc,
        None => {
            return Err(SyncError::Decode);
        },
    };
    let resp = match decode_paradex_funding(&doc) {
        Some(resp) => resp,
        None => {
            return Err(SyncError::Decode);
        },
    };
    let ghost fs = resp.results@.map_values(|f: ParadexFunding| f@);
    let mut out: Vec<NormalizedFundingRate> = Vec::new();
    let n = resp.results.len();
    let mut i: usize = 0;
    while i < n
        invariant
            0 <= i <= n,
            n == resp.results@.len(),
            fs == resp.results@.map_values(|f: ParadexFunding| f@),
            out@.map_values(|f: NormalizedFundingRate| f@) == spec_normalized_paradex_funding(
                fs.subrange(0, i as int),
                now_ms as int,
            ),
        decreases n - i,
    {
        let f = &resp.results[i];
        let ghost prefix = fs.subrange(0, i as int);
        let ghost prefix1 = fs.subrange(0, i + 1);
        assert(prefix1.drop_last() =~= prefix);
        assert(prefix1.last() == f@);
        match f.funding_rate {
            Some(rate) => {
                let row = NormalizedFundingRate {
                    market_symbol: f.market.clone(),
                    rate,
                    timestamp_ms: ts_utc(f.created_at, now_ms),
                };
                out.push(row);
                assert(out@.map_values(|x: NormalizedFundingRate| x@)
                    =~= spec_normalized_paradex_funding(prefix, now_ms as int).push(
                    FundingRateV {
                        market_symbol: f@.market,
                        rate,
                        timestamp_ms: spec_ts_utc(f@.created_at, now_ms as int),
                    },
                ));
            },
            None => {
                assert(out@.map_values(|x: NormalizedFundingRate| x@)
                    == spec_normalized_paradex_funding(prefix1, now_ms as int));
            },
        }
        i += 1;
    }
    assert(fs.subrange(0, n as int) =~= fs);
    Ok(out)
}

/// Decode the `/funding/data` response shape.
fn decode_paradex_funding(doc: &Json) -> (r: Option<ParadexFundingResponse>)
    ensures
        match r {
            Some(resp) => spec_paradex_funding_response(*doc) == Some(
                resp.results@.map_values(|f: ParadexFunding| f@),
            ),
            None => spec_paradex_funding_response(*doc) is None,
        },
{
    let next = match get_opt_str_field(doc, "next") {
        Some(v) => v,
        None => {
            return None;
        },
    };
    let prev = match get_opt_str_field(doc, "prev") {
        Some(v) => v,
        None => {
            return None;
        },
    };
    let rows = match doc.get("results") {
        Some(Json::Arr(rows)) => rows,
        _ => {
            return None;
        },
    };
    let n = rows.len();
    let mut results: Vec<ParadexFunding> = Vec::new();
    let mut i: usize = 0;
    while i < n
        invariant
            0 <= i <= n,
            n == rows@.len(),
            json_get_spec(*doc, "results"@) == Some(Json::Arr(*rows)),
            spec_opt_str_field(*doc, "next"@) is Some,
            spec_opt_str_field(*doc, "prev"@) is Some,
            decode_all(rows@.subrange(0, i as int), |x: Json| spec_paradex_funding_of(x)) == Some(
                results@.map_values(|f: ParadexFunding| f@),
            ),
        decreases n - i,
    {
        let ghost prefix = rows@.subrange(0, i as int);
        let ghost prefix1 = rows@.subrange(0, i + 1);
        assert(prefix1.drop_last() =~= prefix);
        assert(prefix1.last() == rows@[i as int]);
        match paradex_funding_from_json(&rows[i]) {
            Some(f) => {
                results.push(f);
                assert(results@.map_values(|x: ParadexFunding| x@) =~= decode_all(
                    prefix,
                    |x: Json| spec_paradex_funding_of(x),
                ).unwrap().push(f@));
            },
            None => {
                proof {
                    lemma_decode_all_fail(rows@, |x: Json| spec_paradex_funding_of(x), i as int);
                }
                return None;
            },
        }
        i += 1;
    }
    assert(rows@.subrange(0, n as int) =~= rows@);
    Some(ParadexFundingResponse { next, prev, results })
}

} // verus!

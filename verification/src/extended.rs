//! The Extended adapter: endpoint URLs, the raw response schema, and the
//! verified normalizers that turn decoded JSON into canonical rows.

use vstd::prelude::*;

use crate::decimal::Dec;
use crate::json::{
    decode_all, de_i64_strict, get_bool_field, get_dec_str_field, get_str_field, json_get_spec,
    json_of, json_parse, lemma_decode_all_fail, spec_bool_field, spec_de_i64_strict,
    spec_dec_str_field, spec_str_field, Json,
};
use crate::model::{
    FundingRateV, MarketStatsV, MarketV, NormalizedFundingRate, NormalizedMarket,
    NormalizedMarketStats, SyncError,
};
use crate::text::{dash_segment_1, second_dash_segment};
use crate::time_windows::{spec_ts_utc, ts_utc};

verus! {

// ------------------------------------------------------------------
// Endpoints
// ------------------------------------------------------------------

/// The Extended REST base URLs.
pub struct ExtendedAPIEndpoints {
    pub base_url: &'static str,
    pub testnet_base_url: &'static str,
}

/// The configured Extended endpoints.
pub fn extended_api_endpoints() -> (r: ExtendedAPIEndpoints)
    ensures
        r.base_url@ == "https://api.extended.exchange/api/v1"@,
        r.testnet_base_url@ == "https://api.starknet.sepolia.extended.exchange/api/v1"@,
{
    ExtendedAPIEndpoints {
        base_url: "https://api.extended.exchange/api/v1",
        testnet_base_url: "https://api.starknet.sepolia.extended.exchange/api/v1",
    }
}

/// Which deployment of the exchange to talk to.
#[derive(Clone, Copy, Debug, PartialEq, Eq, Structural)]
pub enum ApiEnvironment {
    Mainnet,
    Testnet,
}

/// The public REST endpoints used by this adapter; three of them are
/// parameterized by the exchange-native market symbol.
#[derive(Clone, Debug)]
pub enum PublicEndpoint {
    Markets,
    MarketStats(String),
    OpenInterest(String),
    Funding(String),
}

/// The path of a public endpoint.
pub open spec fn spec_endpoint_path(e: PublicEndpoint) -> Seq<char> {
    match e {
        PublicEndpoint::Markets => "/info/markets"@,
        PublicEndpoint::MarketStats(m) => "/info/markets/"@ + m@ + "/stats"@,
        PublicEndpoint::OpenInterest(m) => "/info/"@ + m@ + "/open-interests"@,
        PublicEndpoint::Funding(m) => "/info/"@ + m@ + "/funding"@,
    }
}

impl PublicEndpoint {
    /// The URL path for this endpoint.
    pub fn to_path(&self) -> (r: String)
        ensures
            r@ == spec_endpoint_path(*self),
    {
        match self {
            PublicEndpoint::Markets => "/info/markets".to_owned(),
            PublicEndpoint::MarketStats(m) => "/info/markets/".to_owned().concat(
                m.as_str(),
            ).concat("/stats"),
            PublicEndpoint::OpenInterest(m) => "/info/".to_owned().concat(m.as_str()).concat(
                "/open-interests",
            ),
            PublicEndpoint::Funding(m) => "/info/".to_owned().concat(m.as_str()).concat(
                "/funding",
            ),
        }
    }
}

/// The base URL for an environment.
pub open spec fn spec_base_url(env: ApiEnvironment) -> Seq<char> {
    match env {
        ApiEnvironment::Mainnet => "https://api.extended.exchange/api/v1"@,
        ApiEnvironment::Testnet => "https://api.starknet.sepolia.extended.exchange/api/v1"@,
    }
}

/// The full URL of a public endpoint in the given environment.
pub fn get_public_url(endpoint: PublicEndpoint, environment: ApiEnvironment) -> (r: String)
    ensures
        r@ == spec_base_url(environment) + spec_endpoint_path(endpoint),
{
    let eps = extended_api_endpoints();
    let base: &'static str = match environment {
        ApiEnvironment::Mainnet => eps.base_url,
        ApiEnvironment::Testnet => eps.testnet_base_url,
    };
    base.to_owned().concat(endpoint.to_path().as_str())
}

// ------------------------------------------------------------------
// Market catalog schema
// ------------------------------------------------------------------

/// The stats block nested inside a market row (JSON keys `openInterest`
/// and `dailyVolume`, both string-encoded decimals).
#[derive(Clone, Debug)]
pub struct ExtendedInlineMarketStats {
    pub open_interest: Dec,
    pub daily_volume: Dec,
}

/// The mathematical shape of an `ExtendedInlineMarketStats`.
pub ghost struct ExtendedInlineMarketStatsV {
    pub open_interest: Dec,
    pub daily_volume: Dec,
}

impl View for ExtendedInlineMarketStats {
    type V = ExtendedInlineMarketStatsV;

    open spec fn view(&self) -> ExtendedInlineMarketStatsV {
        ExtendedInlineMarketStatsV {
            open_interest: self.open_interest,
            daily_volume: self.daily_volume,
        }
    }
}

/// One market row of the `/info/markets` response (JSON keys `name`,
/// `assetName`, `active`, `marketStats`).
#[derive(Clone, Debug)]
pub struct ExtendedMarket {
    pub name: String,
    pub asset_name: String,
    pub active: bool,
    pub market_stats: Option<ExtendedInlineMarketStats>,
}

/// The mathematical shape of an `ExtendedMarket`.
pub ghost struct ExtendedMarketV {
    pub name: Seq<char>,
    pub asset_name: Seq<char>,
    pub active: bool,
    pub market_stats: Option<ExtendedInlineMarketStatsV>,
}

impl View for ExtendedMarket {
    type V = ExtendedMarketV;

    open spec fn view(&self) -> ExtendedMarketV {
        ExtendedMarketV {
            name: self.name@,
            asset_name: self.asset_name@,
            active: self.active,
            market_stats: match self.market_stats {
                Some(s) => Some(s@),
                None => None,
            },
        }
    }
}

/// The `/info/markets` response body.
#[derive(Debug)]
pub struct ExtendedMarketsResponse {
    pub data: Vec<ExtendedMarket>,
}

/// The nested stats block decoded from its JSON object.
pub open spec fn spec_inline_stats_of(j: Json) -> Option<ExtendedInlineMarketStatsV> {
    match (spec_dec_str_field(j, "openInterest"@), spec_dec_str_field(j, "dailyVolume"@)) {
        (Some(open_interest), Some(daily_volume)) => Some(
            ExtendedInlineMarketStatsV { open_interest, daily_volume },
        ),
        _ => None,
    }
}

/// Decode the nested stats block.
pub fn inline_stats_from_json(j: &Json) -> (r: Option<ExtendedInlineMarketStats>)
    ensures
        match r {
            Some(s) => spec_inline_stats_of(*j) == Some(s@),
            None => spec_inline_stats_of(*j) is None,
        },
{
    let open_interest = match get_dec_str_field(j, "openInterest") {
        Some(d) => d,
        None => {
            return None;
        },
    };
    let daily_volume = match get_dec_str_field(j, "dailyVolume") {
        Some(d) => d,
        None => {
            return None;
        },
    };
    Some(ExtendedInlineMarketStats { open_interest, daily_volume })
}

/// A market row decoded from its JSON object: `name` and `assetName` are
/// required strings, `active` a required boolean, and `marketStats` an
/// optional nested block.
pub open spec fn spec_extended_market_of(j: Json) -> Option<ExtendedMarketV> {
    let stats = match json_get_spec(j, "marketStats"@) {
        None => Some(None),
        Some(Json::Null) => Some(None),
        Some(v) => match spec_inline_stats_of(v) {
            Some(s) => Some(Some(s)),
            None => None,
        },
    };
    match (
        spec_str_field(j, "name"@),
        spec_str_field(j, "assetName"@),
        spec_bool_field(j, "active"@),
        stats,
    ) {
        (Some(name), Some(asset_name), Some(active), Some(market_stats)) => Some(
            ExtendedMarketV { name, asset_name, active, market_stats },
        ),
        _ => None,
    }
}

/// Decode one market row.
pub fn extended_market_from_json(j: &Json) -> (r: Option<ExtendedMarket>)
    ensures
        match r {
            Some(m) => spec_extended_market_of(*j) == Some(m@),
            None => spec_extended_market_of(*j) is None,
        },
{
    let name = match get_str_field(j, "name") {
        Some(s) => s,
        None => {
            return None;
        },
    };
    let asset_name = match get_str_field(j, "assetName") {
        Some(s) => s,
        None => {
            return None;
        },
    };
    let active = match get_bool_field(j, "active") {
        Some(b) => b,
        None => {
            return None;
        },
    };
    let market_stats = match j.get("marketStats") {
        None => None,
        Some(Json::Null) => None,
        Some(v) => match inline_stats_from_json(v) {
            Some(s) => Some(s),
            None => {
                return None;
            },
        },
    };
    Some(ExtendedMarket { name, asset_name, active, market_stats })
}

/// A catalog row mapped to the canonical market shape: the quote currency
/// is read out of the market name (`BTC-USD` quotes in `USD`).
pub open spec fn spec_normalize_extended_market(m: ExtendedMarketV) -> MarketV {
    MarketV {
        exchange: "extended"@,
        symbol: m.asset_name,
        market_symbol: m.name,
        base_currency: m.asset_name,
        quote_currency: second_dash_segment(m.name),
        is_active: m.active,
    }
}

/// The decoded `/info/markets` response: a `data` array of market rows.
pub open spec fn spec_extended_markets_response(j: Json) -> Option<Seq<ExtendedMarketV>> {
    match json_get_spec(j, "data"@) {
        Some(Json::Arr(rows)) => decode_all(rows@, |x: Json| spec_extended_market_of(x)),
        _ => None,
    }
}

/// What parsing an `/info/markets` body yields: every decoded row in
/// canonical shape; `None` exactly when the bytes do not decode.
pub open spec fn spec_parse_extended_markets(bytes: Seq<u8>) -> Option<Seq<MarketV>> {
    match json_of(bytes) {
        Some(doc) => match spec_extended_markets_response(doc) {
            Some(ms) => Some(ms.map_values(|m: ExtendedMarketV| spec_normalize_extended_market(m))),
            None => None,
        },
        None => None,
    }
}

/// Parse an `/info/markets` response body into canonical markets.
pub fn parse_extended_markets(raw: &[u8]) -> (r: Result<Vec<NormalizedMarket>, SyncError>)
    ensures
        match r {
            Ok(v) => spec_parse_extended_markets(raw@) == Some(
                v@.map_values(|m: NormalizedMarket| m@),
            ),
            Err(e) => e == SyncError::Decode && spec_parse_extended_markets(raw@) is None,
        },
{
    let doc = match json_parse(raw) {
        Some(doc) => doc,
        None => {
            return Err(SyncError::Decode);
        },
    };
    let resp = match decode_extended_markets(&doc) {
        Some(resp) => resp,
        None => {
            return Err(SyncError::Decode);
        },
    };
    let ghost ms = resp.data@.map_values(|m: ExtendedMarket| m@);
    let mut out: Vec<NormalizedMarket> = Vec::new();
    let n = resp.data.len();
    let mut i: usize = 0;
    while i < n
        invariant
            0 <= i <= n,
            n == resp.data@.len(),
            ms == resp.data@.map_values(|m: ExtendedMarket| m@),
            out@.map_values(|m: NormalizedMarket| m@) == ms.subrange(0, i as int).map_values(
                |m: ExtendedMarketV| spec_normalize_extended_market(m),
            ),
        decreases n - i,
    {
        let m = &resp.data[i];
        let row = NormalizedMarket {
            exchange: "extended".to_owned(),
            symbol: m.asset_name.clone(),
            market_symbol: m.name.clone(),
            base_currency: m.asset_name.clone(),
            quote_currency: dash_segment_1(m.name.as_str()),
            is_active: m.active,
        };
        out.push(row);
        assert(out@.map_values(|x: NormalizedMarket| x@) =~= ms.subrange(0, i + 1).map_values(
            |x: ExtendedMarketV| spec_normalize_extended_market(x),
        )) by {
            assert(ms.subrange(0, i + 1).drop_last() =~= ms.subrange(0, i as int));
            assert(ms.subrange(0, i + 1).map_values(
                |x: ExtendedMarketV| spec_normalize_extended_market(x),
            ) =~= ms.subrange(0, i as int).map_values(
                |x: ExtendedMarketV| spec_normalize_extended_market(x),
            ).push(spec_normalize_extended_market(ms[i as int])));
        }
        i += 1;
    }
    assert(ms.subrange(0, n as int) =~= ms);
    Ok(out)
}

/// Decode the `/info/markets` response shape.
fn decode_extended_markets(doc: &Json) -> (r: Option<ExtendedMarketsResponse>)
    ensures
        match r {
            Some(resp) => spec_extended_markets_response(*doc) == Some(
                resp.data@.map_values(|m: ExtendedMarket| m@),
            ),
            None => spec_extended_markets_response(*doc) is None,
        },
{
    let rows = match doc.get("data") {
        Some(Json::Arr(rows)) => rows,
        _ => {
            return None;
        },
    };
    let n = rows.len();
    let mut data: Vec<ExtendedMarket> = Vec::new();
    let mut i: usize = 0;
    while i < n
        invariant
            0 <= i <= n,
            n == rows@.len(),
            json_get_spec(*doc, "data"@) == Some(Json::Arr(*rows)),
            decode_all(rows@.subrange(0, i as int), |x: Json| spec_extended_market_of(x)) == Some(
                data@.map_values(|m: ExtendedMarket| m@),
            ),
        decreases n - i,
    {
        let ghost prefix = rows@.subrange(0, i as int);
        let ghost prefix1 = rows@.subrange(0, i + 1);
        assert(prefix1.drop_last() =~= prefix);
        assert(prefix1.last() == rows@[i as int]);
        match extended_market_from_json(&rows[i]) {
            Some(m) => {
                data.push(m);
                assert(data@.map_values(|x: ExtendedMarket| x@) =~= decode_all(
                    prefix,
                    |x: Json| spec_extended_market_of(x),
                ).unwrap().push(m@));
            },
            None => {
                proof {
                    lemma_decode_all_fail(rows@, |x: Json| spec_extended_market_of(x), i as int);
                }
                return None;
            },
        }
        i += 1;
    }
    assert(rows@.subrange(0, n as int) =~= rows@);
    Some(ExtendedMarketsResponse { data })
}

// ------------------------------------------------------------------
// Funding history schema
// ------------------------------------------------------------------

/// One row of the `/info/{market}/funding` response (JSON keys `m`, `f`,
/// `T`: the market symbol, the string-encoded rate, and the integer
/// millisecond timestamp).
#[derive(Clone, Debug)]
pub struct ExtendedFundingData {
    pub m: String,
    pub f: Dec,
    pub t: i64,
}

/// The mathematical shape of an `ExtendedFundingData`.
pub ghost struct ExtendedFundingDataV {
    pub m: Seq<char>,
    pub f: Dec,
    pub t: int,
}

impl View for ExtendedFundingData {
    type V = ExtendedFundingDataV;

    open spec fn view(&self) -> ExtendedFundingDataV {
        ExtendedFundingDataV { m: self.m@, f: self.f, t: self.t as int }
    }
}

/// The `/info/{market}/funding` response body.
#[derive(Debug)]
pub struct ExtendedFundingResponse {
    pub data: Vec<ExtendedFundingData>,
}

/// A funding row decoded from its JSON object: the rate must be a
/// string-encoded decimal and the timestamp an integer.
pub open spec fn spec_extended_funding_of(j: Json) -> Option<ExtendedFundingDataV> {
    let t = match json_get_spec(j, "T"@) {
        Some(v) => spec_de_i64_strict(v),
        None => None,
    };
    match (spec_str_field(j, "m"@), spec_dec_str_field(j, "f"@), t) {
        (Some(m), Some(f), Some(t)) => Some(ExtendedFundingDataV { m, f, t: t as int }),
        _ => None,
    }
}

/// Decode one funding row.
pub fn extended_funding_from_json(j: &Json) -> (r: Option<ExtendedFundingData>)
    ensures
        match r {
            Some(f) => spec_extended_funding_of(*j) == Some(f@),
            None => spec_extended_funding_of(*j) is None,
        },
{
    let m = match get_str_field(j, "m") {
        Some(s) => s,
        None => {
            return None;
        },
    };
    let f = match get_dec_str_field(j, "f") {
        Some(d) => d,
        None => {
            return None;
        },
    };
    let t = match j.get("T") {
        Some(v) => match de_i64_strict(v) {
            Some(t) => t,
            None => {
                return None;
            },
        },
        None => {
            return None;
        },
    };
    Some(ExtendedFundingData { m, f, t })
}

/// A funding row in canonical shape.
pub open spec fn spec_normalize_extended_funding(f: ExtendedFundingDataV, now_ms: int) -> FundingRateV {
    FundingRateV { market_symbol: f.m, rate: f.f, timestamp_ms: spec_ts_utc(f.t, now_ms) }
}

/// The decoded `/info/{market}/funding` response: a `data` array of rows.
pub open spec fn spec_extended_funding_response(j: Json) -> Option<Seq<ExtendedFundingDataV>> {
    match json_get_spec(j, "data"@) {
        Some(Json::Arr(rows)) => decode_all(rows@, |x: Json| spec_extended_funding_of(x)),
        _ => None,
    }
}

/// What parsing an `/info/{market}/funding` body yields, given the
/// current time; `None` exactly when the bytes do not decode.
pub open spec fn spec_parse_extended_funding(bytes: Seq<u8>, now_ms: int) -> Option<Seq<
    FundingRateV,
>> {
    match json_of(bytes) {
        Some(doc) => match spec_extended_funding_response(doc) {
            Some(fs) => Some(
                fs.map_values(|f: ExtendedFundingDataV| spec_normalize_extended_funding(f, now_ms)),
            ),
            None => None,
        },
        None => None,
    }
}

/// Parse an `/info/{market}/funding` response body into canonical funding
/// rows.
pub fn parse_extended_funding(raw: &[u8], now_ms: i64) -> (r: Result<
    Vec<NormalizedFundingRate>,
    SyncError,
>)
    ensures
        match r {
            Ok(v) => spec_parse_extended_funding(raw@, now_ms as int) == Some(
                v@.map_values(|f: NormalizedFundingRate| f@),
            ),
            Err(e) => e == SyncError::Decode && spec_parse_extended_funding(
                raw@,
                now_ms as int,
            ) is None,
        },
{
    let doc = match json_parse(raw) {
        Some(doc) => doc,
        None => {
            return Err(SyncError::Decode);
        },
    };
    let resp = match decode_extended_funding(&doc) {
        Some(resp) => resp,
        None => {
            return Err(SyncError::Decode);
        },
    };
    let ghost fs = resp.data@.map_values(|f: ExtendedFundingData| f@);
    let mut out: Vec<NormalizedFundingRate> = Vec::new();
    let n = resp.data.len();
    let mut i: usize = 0;
    while i < n
        invariant
            0 <= i <= n,
            n == resp.data@.len(),
            fs == resp.data@.map_values(|f: ExtendedFundingData| f@),
            out@.map_values(|f: NormalizedFundingRate| f@) == fs.subrange(0, i as int).map_values(
                |f: ExtendedFundingDataV| spec_normalize_extended_funding(f, now_ms as int),
            ),
        decreases n - i,
    {
        let f = &resp.data[i];
        let row = NormalizedFundingRate {
            market_symbol: f.m.clone(),
            rate: f.f,
            timestamp_ms: ts_utc(f.t, now_ms),
        };
        out.push(row);
        assert(out@.map_values(|x: NormalizedFundingRate| x@) =~= fs.subrange(0, i + 1).map_values(
            |x: ExtendedFundingDataV| spec_normalize_extended_funding(x, now_ms as int),
        )) by {
            assert(fs.subrange(0, i + 1).drop_last() =~= fs.subrange(0, i as int));
            assert(fs.subrange(0, i + 1).map_values(
                |x: ExtendedFundingDataV| spec_normalize_extended_funding(x, now_ms as int),
            ) =~= fs.subrange(0, i as int).map_values(
                |x: ExtendedFundingDataV| spec_normalize_extended_funding(x, now_ms as int),
            ).push(spec_normalize_extended_funding(fs[i as int], now_ms as int)));
        }
        i += 1;
    }
    assert(fs.subrange(0, n as int) =~= fs);
    Ok(out)
}

/// Decode the `/info/{market}/funding` response shape.
fn decode_extended_funding(doc: &Json) -> (r: Option<ExtendedFundingResponse>)
    ensures
        match r {
            Some(resp) => spec_extended_funding_response(*doc) == Some(
                resp.data@.map_values(|f: ExtendedFundingData| f@),
            ),
            None => spec_extended_funding_response(*doc) is None,
        },
{
    let rows = match doc.get("data") {
        Some(Json::Arr(rows)) => rows,
        _ => {
            return None;
        },
    };
    let n = rows.len();
    let mut data: Vec<ExtendedFundingData> = Vec::new();
    let mut i: usize = 0;
    while i < n
        invariant
            0 <= i <= n,
            n == rows@.len(),
            json_get_spec(*doc, "data"@) == Some(Json::Arr(*rows)),
            decode_all(rows@.subrange(0, i as int), |x: Json| spec_extended_funding_of(x)) == Some(
                data@.map_values(|f: ExtendedFundingData| f@),
            ),
        decreases n - i,
    {
        let ghost prefix = rows@.subrange(0, i as int);
        let ghost prefix1 = rows@.subrange(0, i + 1);
        assert(prefix1.drop_last() =~= prefix);
        assert(prefix1.last() == rows@[i as int]);
        match extended_funding_from_json(&rows[i]) {
            Some(f) => {
                data.push(f);
                assert(data@.map_values(|x: ExtendedFundingData| x@) =~= decode_all(
                    prefix,
                    |x: Json| spec_extended_funding_of(x),
                ).unwrap().push(f@));
            },
            None => {
                proof {
                    lemma_decode_all_fail(rows@, |x: Json| spec_extended_funding_of(x), i as int);
                }
                return None;
            },
        }
        i += 1;
    }
    assert(rows@.subrange(0, n as int) =~= rows@);
    Some(ExtendedFundingResponse { data })
}

// ------------------------------------------------------------------
// Per-market stats schema
// ------------------------------------------------------------------

/// The stats block of the `/info/markets/{market}/stats` response (JSON
/// keys `openInterest` and `dailyVolume`, both string-encoded decimals).
#[derive(Clone, Debug)]
pub struct ExtendedMarketStatsData {
    pub open_interest: Dec,
    pub daily_volume: Dec,
}

/// The mathematical shape of an `ExtendedMarketStatsData`.
pub ghost struct ExtendedMarketStatsDataV {
    pub open_interest: Dec,
    pub daily_volume: Dec,
}

impl View for ExtendedMarketStatsData {
    type V = ExtendedMarketStatsDataV;

    open spec fn view(&self) -> ExtendedMarketStatsDataV {
        ExtendedMarketStatsDataV {
            open_interest: self.open_interest,
            daily_volume: self.daily_volume,
        }
    }
}

/// The `/info/markets/{market}/stats` response body.
#[derive(Debug)]
pub struct ExtendedMarketStatsResponse {
    pub data: ExtendedMarketStatsData,
}

/// The stats block decoded from its JSON object.
pub open spec fn spec_extended_stats_data_of(j: Json) -> Option<ExtendedMarketStatsDataV> {
    match (spec_dec_str_field(j, "openInterest"@), spec_dec_str_field(j, "dailyVolume"@)) {
        (Some(open_interest), Some(daily_volume)) => Some(
            ExtendedMarketStatsDataV { open_interest, daily_volume },
        ),
        _ => None,
    }
}

/// What parsing an `/info/markets/{market}/stats` body yields for a given
/// market and current time: both figures are reported by the exchange in
/// USD already, so they pass through unchanged; `None` exactly when the
/// bytes do not decode.
pub open spec fn spec_parse_extended_market_stats(
    bytes: Seq<u8>,
    market: Seq<char>,
    now_ms: int,
) -> Option<MarketStatsV> {
    match json_of(bytes) {
        Some(doc) => match json_get_spec(doc, "data"@) {
            Some(d) => match spec_extended_stats_data_of(d) {
                Some(s) => Some(
                    MarketStatsV {
                        market_symbol: market,
                        open_interest: Some(s.open_interest),
                        volume_24h: Some(s.daily_volume),
                        timestamp_ms: now_ms,
                    },
                ),
                None => None,
            },
            None => None,
        },
        None => None,
    }
}

/// Parse an `/info/markets/{market}/stats` response body into one
/// canonical stats row for the given market, stamped with the supplied
/// current time.
pub fn parse_extended_market_stats(raw: &[u8], market: &str, now_ms: i64) -> (r: Result<
    NormalizedMarketStats,
    SyncError,
>)
    ensures
        match r {
            Ok(s) => spec_parse_extended_market_stats(raw@, market@, now_ms as int) == Some(s@),
            Err(e) => e == SyncError::Decode && spec_parse_extended_market_stats(
                raw@,
                market@,
                now_ms as int,
            ) is None,
        },
{
    let doc = match json_parse(raw) {
        Some(doc) => doc,
        None => {
            return Err(SyncError::Decode);
        },
    };
    let d = match doc.get("data") {
        Some(d) => d,
        None => {
            return Err(SyncError::Decode);
        },
    };
    let open_interest = match get_dec_str_field(d, "openInterest") {
        Some(v) => v,
        None => {
            return Err(SyncError::Decode);
        },
    };
    let daily_volume = match get_dec_str_field(d, "dailyVolume") {
        Some(v) => v,
        None => {
            return Err(SyncError::Decode);
        },
    };
    Ok(
        NormalizedMarketStats {
            market_symbol: market.to_owned(),
            open_interest: Some(open_interest),
            volume_24h: Some(daily_volume),
            timestamp_ms: now_ms,
        },
    )
}

} // verus!

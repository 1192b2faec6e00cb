//! The canonical model: normalized markets, funding rates and stats, the
//! error taxonomy, and the case-insensitive exchange registry.

use vstd::prelude::*;

use crate::decimal::Dec;
use crate::text::{lower, normalized, str_eq};

verus! {

/// A market in canonical shape, independent of any exchange schema.
#[derive(Clone, Debug)]
pub struct NormalizedMarket {
    pub exchange: String,
    pub symbol: String,
    pub market_symbol: String,
    pub base_currency: String,
    pub quote_currency: String,
    pub is_active: bool,
}

/// The mathematical shape of a `NormalizedMarket`.
pub ghost struct MarketV {
    pub exchange: Seq<char>,
    pub symbol: Seq<char>,
    pub market_symbol: Seq<char>,
    pub base_currency: Seq<char>,
    pub quote_currency: Seq<char>,
    pub is_active: bool,
}

impl View for NormalizedMarket {
    type V = MarketV;

    open spec fn view(&self) -> MarketV {
        MarketV {
            exchange: self.exchange@,
            symbol: self.symbol@,
            market_symbol: self.market_symbol@,
            base_currency: self.base_currency@,
            quote_currency: self.quote_currency@,
            is_active: self.is_active,
        }
    }
}

/// One funding-rate observation for a market, at millisecond resolution.
#[derive(Clone, Debug)]
pub struct NormalizedFundingRate {
    pub market_symbol: String,
    pub rate: Dec,
    pub timestamp_ms: i64,
}

/// The mathematical shape of a `NormalizedFundingRate`.
pub ghost struct FundingRateV {
    pub market_symbol: Seq<char>,
    pub rate: Dec,
    pub timestamp_ms: int,
}

impl View for NormalizedFundingRate {
    type V = FundingRateV;

    open spec fn view(&self) -> FundingRateV {
        FundingRateV {
            market_symbol: self.market_symbol@,
            rate: self.rate,
            timestamp_ms: self.timestamp_ms as int,
        }
    }
}

/// A point-in-time snapshot of a market's open interest (in USD, or absent
/// when it could not be computed) and 24-hour volume.
#[derive(Clone, Debug)]
pub struct NormalizedMarketStats {
    pub market_symbol: String,
    pub open_interest: Option<Dec>,
    pub volume_24h: Option<Dec>,
    pub timestamp_ms: i64,
}

/// The mathematical shape of a `NormalizedMarketStats`.
pub ghost struct MarketStatsV {
    pub market_symbol: Seq<char>,
    pub open_interest: Option<Dec>,
    pub volume_24h: Option<Dec>,
    pub timestamp_ms: int,
}

impl View for NormalizedMarketStats {
    type V = MarketStatsV;

    open spec fn view(&self) -> MarketStatsV {
        MarketStatsV {
            market_symbol: self.market_symbol@,
            open_interest: self.open_interest,
            volume_24h: self.volume_24h,
            timestamp_ms: self.timestamp_ms as int,
        }
    }
}

/// A market row as read back from the store: its identifier and its
/// exchange-native symbol.
#[derive(Clone, Debug)]
pub struct MarketRef {
    pub id: i32,
    pub market_symbol: String,
}

/// The failure taxonomy: transport failures, malformed or mismatched
/// response bodies, and storage transaction failures. Unsupported exchange
/// names, empty row sets and inverted windows are recognized no-ops, not
/// errors.
#[derive(Clone, Copy, Debug, PartialEq, Eq, Structural)]
pub enum SyncError {
    Network,
    Decode,
    Storage,
}

/// The supported exchanges.
#[derive(Clone, Copy, Debug, PartialEq, Eq, Structural)]
pub enum ExchangeKind {
    Paradex,
    Extended,
}

/// The exchange a name selects, after trimming and case folding.
pub open spec fn spec_supported_exchange(name: Seq<char>) -> Option<ExchangeKind> {
    if normalized(name) == "paradex"@ {
        Some(ExchangeKind::Paradex)
    } else if normalized(name) == "extended"@ {
        Some(ExchangeKind::Extended)
    } else {
        None
    }
}

/// Select an exchange by case-insensitive name lookup. An unknown name is
/// a recognized "unsupported" outcome, not an error.
pub fn supported_exchange(name: &str) -> (r: Option<ExchangeKind>)
    ensures
        r == spec_supported_exchange(name@),
{
    let l = lower(name);
    if str_eq(l.as_str(), "paradex") {
        Some(ExchangeKind::Paradex)
    } else if str_eq(l.as_str(), "extended") {
        Some(ExchangeKind::Extended)
    } else {
        None
    }
}

/// The exchange-native symbols of a market list, in order.
pub fn market_symbols(markets: &Vec<NormalizedMarket>) -> (r: Vec<String>)
    ensures
        r@.len() == markets@.len(),
        forall|i: int| 0 <= i < r@.len() ==> r@[i]@ == #[trigger] markets@[i].market_symbol@,
{
    let mut out: Vec<String> = Vec::new();
    let mut i: usize = 0;
    let n = markets.len();
    while i < n
        invariant
            0 <= i <= n,
            n == markets@.len(),
            out@.len() == i,
            forall|k: int| 0 <= k < i ==> out@[k]@ == #[trigger] markets@[k].market_symbol@,
        decreases n - i,
    {
        out.push(markets[i].market_symbol.clone());
        i += 1;
    }
    out
}

/// The first stats row carrying the given market symbol, as an index into
/// the row list.
pub open spec fn find_stats_from(stats: Seq<NormalizedMarketStats>, sym: Seq<char>, i: int) -> Option<int>
    decreases stats.len() - i,
{
    if i < 0 || i >= stats.len() {
        None
    } else if stats[i].market_symbol@ == sym {
        Some(i)
    } else {
        find_stats_from(stats, sym, i + 1)
    }
}

/// Select the snapshot for one market out of a whole-exchange summary: the
/// first row whose symbol matches, if any.
pub fn find_stats_for<'a>(stats: &'a Vec<NormalizedMarketStats>, sym: &str) -> (r: Option<
    &'a NormalizedMarketStats,
>)
    ensures
        match r {
            Some(s) => exists|i: int|
                find_stats_from(stats@, sym@, 0) == Some(i) && *s == stats@[i],
            None => find_stats_from(stats@, sym@, 0) is None,
        },
{
    let n = stats.len();
    let mut i: usize = 0;
    while i < n
        invariant
            0 <= i <= n,
            n == stats@.len(),
            find_stats_from(stats@, sym@, 0) == find_stats_from(stats@, sym@, i as int),
        decreases n - i,
    {
        let row = &stats[i];
        if str_eq(row.market_symbol.as_str(), sym) {
            assert(find_stats_from(stats@, sym@, i as int) == Some(i as int));
            return Some(row);
        }
        i += 1;
    }
    None
}

} // verus!

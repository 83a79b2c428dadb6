//! The curated market symbols shown in the dashboard ticker after the
//! user's own holdings: major indices, then bitcoin, gold and crude oil.
use vstd::prelude::*;

verus! {

/// The kind of instrument a ticker symbol quotes.
#[derive(Clone, Copy, Debug, PartialEq, Eq, Structural)]
pub enum InstrumentType {
    Equity,
    Crypto,
    Metal,
    Futures,
}

/// A curated index or commodity: the symbol handed to the resolver and the
/// label shown on its chip.
pub struct CuratedTickerSymbol {
    pub symbol: &'static str,
    pub label: &'static str,
    pub instrument_type: InstrumentType,
}

pub open spec fn curated_view() -> Seq<(Seq<char>, Seq<char>, InstrumentType)> {
    seq![
        ("SPX"@, "S&P 500"@, InstrumentType::Equity),
        ("IXIC"@, "Nasdaq"@, InstrumentType::Equity),
        ("DJI"@, "Dow Jones"@, InstrumentType::Equity),
        ("BTCUSD"@, "Bitcoin"@, InstrumentType::Crypto),
        ("XAUUSD"@, "Gold"@, InstrumentType::Metal),
        ("CL"@, "Crude Oil"@, InstrumentType::Futures),
    ]
}

pub open spec fn symbols_view(v: Seq<CuratedTickerSymbol>) -> Seq<(Seq<char>, Seq<char>, InstrumentType)> {
    v.map_values(|c: CuratedTickerSymbol| (c.symbol@, c.label@, c.instrument_type))
}

fn entry(symbol: &'static str, label: &'static str, instrument_type: InstrumentType) -> (r: CuratedTickerSymbol)
    ensures
        r.symbol@ == symbol@ && r.label@ == label@ && r.instrument_type == instrument_type,
{
    CuratedTickerSymbol { symbol, label, instrument_type }
}

/// The curated symbols, in the order the ticker shows them.
pub fn curated_ticker_symbols() -> (r: Vec<CuratedTickerSymbol>)
    ensures
        symbols_view(r@) == curated_view(),
{
    let mut v: Vec<CuratedTickerSymbol> = Vec::new();
    v.push(entry("SPX", "S&P 500", InstrumentType::Equity));
    v.push(entry("IXIC", "Nasdaq", InstrumentType::Equity));
    v.push(entry("DJI", "Dow Jones", InstrumentType::Equity));
    v.push(entry("BTCUSD", "Bitcoin", InstrumentType::Crypto));
    v.push(entry("XAUUSD", "Gold", InstrumentType::Metal));
    v.push(entry("CL", "Crude Oil", InstrumentType::Futures));
    assert(symbols_view(v@) =~= curated_view());
    v
}

} // verus!

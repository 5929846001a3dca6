//! Price bars and the snapshot of the latest bar of every symbol.

use vstd::hash_map::StringHashMap;
use vstd::prelude::*;

verus! {

/// One open/high/low/close/volume record of a symbol at one instant.
///
/// Prices are scaled integers. Timestamps are totally ordered: a larger
/// number is a later instant.
#[derive(Clone, Debug)]
pub struct Bar {
    pub symbol: String,
    pub open: u64,
    pub close: u64,
    pub high: u64,
    pub low: u64,
    pub volume: u64,
    pub timestamp: u64,
}

impl Bar {
    /// A bar with the same fields as this one.
    pub fn duplicate(&self) -> (copy: Bar)
        ensures
            copy == *self,
    {
        Bar {
            symbol: self.symbol.clone(),
            open: self.open,
            close: self.close,
            high: self.high,
            low: self.low,
            volume: self.volume,
            timestamp: self.timestamp,
        }
    }
}

/// What a snapshot holds after it has seen `bar`.
pub open spec fn observed(bars: Map<Seq<char>, Bar>, bar: Bar) -> Map<Seq<char>, Bar> {
    bars.insert(bar.symbol@, bar)
}

/// The last close known for `symbol`, if the symbol was ever seen.
pub open spec fn known_price(bars: Map<Seq<char>, Bar>, symbol: Seq<char>) -> Option<u64> {
    if bars.contains_key(symbol) {
        Some(bars[symbol].close)
    } else {
        None
    }
}

/// The most recent bar of every symbol seen so far.
///
/// An entry is overwritten by a newer bar of its symbol and never removed.
pub struct MarketInfo {
    pub bars: StringHashMap<Bar>,
}

impl View for MarketInfo {
    type V = Map<Seq<char>, Bar>;

    open spec fn view(&self) -> Map<Seq<char>, Bar> {
        self.bars@
    }
}

impl MarketInfo {
    /// A snapshot that has seen no bar.
    pub fn new() -> (info: MarketInfo)
        ensures
            info@ == Map::<Seq<char>, Bar>::empty(),
    {
        MarketInfo { bars: StringHashMap::new() }
    }

    /// Records `bar` as the latest bar of its symbol.
    pub fn observe(&mut self, bar: &Bar)
        ensures
            final(self)@ == observed(old(self)@, *bar),
    {
        self.bars.insert(bar.symbol.clone(), bar.duplicate());
    }

    /// The last close seen for `symbol`, or `None` before its first bar.
    pub fn price_of(&self, symbol: &String) -> (price: Option<u64>)
        ensures
            price == known_price(self@, symbol@),
    {
        match self.bars.get(symbol.as_str()) {
            Some(bar) => Some(bar.close),
            None => None,
        }
    }
}

/// Observing a bar never removes a symbol, and leaves the price of every
/// other symbol as it was.
pub proof fn observe_keeps_symbols(bars: Map<Seq<char>, Bar>, bar: Bar, symbol: Seq<char>)
    ensures
        bars.contains_key(symbol) ==> observed(bars, bar).contains_key(symbol),
        known_price(observed(bars, bar), bar.symbol@) == Some(bar.close),
        symbol != bar.symbol@ ==> known_price(observed(bars, bar), symbol) == known_price(
            bars,
            symbol,
        ),
{
}

} // verus!

//! The ways in which a run, or one of its steps, can fail.

use vstd::prelude::*;

verus! {

/// Why an operation was refused. A refused operation changes nothing.
#[derive(Clone, Copy, Debug, PartialEq, Eq, Structural)]
pub enum BacktestError {
    /// A debit of cash asked for more than the ledger holds.
    InsufficientFunds,
    /// A debit of shares asked for more than the ledger holds of the symbol.
    InsufficientHoldings,
    /// A valuation met a held symbol of which no price was ever seen.
    UnknownSymbolPrice,
    /// The windows of a strategy are not `0 < fast < slow`.
    InvalidStrategyConfiguration,
    /// A run was started on no bars at all.
    EmptyBarStore,
    /// An amount does not fit in 64 bits. A purchase at price zero, which
    /// buys no finite quantity, is refused with this too.
    Overflow,
}

} // verus!

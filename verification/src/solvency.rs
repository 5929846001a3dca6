//! The crossover strategy and the ledger stay in step: the strategy never
//! asks for cash or shares that the ledger does not have.

use crate::error::BacktestError;
use crate::ledger::{
    credited, debited, distinct, held, held_after_credit, held_after_debit, is_slot, slot,
    unpriced, LedgerView,
};
use crate::market::{observed, Bar};
use crate::runner::{backtest, fill, fill_all, notified, replay, seeded, Fills, HaltView, Replay};
use crate::trader::{
    crossover_tick, CrossoverModel, CrossoverTrader, CrossoverTraderAccount, Signal, Trader,
};
use vstd::prelude::*;

verus! {

/// What the strategy believes is what the ledger holds: out of the market
/// the cash is the ledger's cash and no shares are held of the symbol; in
/// the market the shares are the ledger's shares of the symbol and no cash
/// is left.
pub open spec fn in_step(ledger: LedgerView, m: CrossoverModel) -> bool {
    &&& distinct(ledger.entries)
    &&& match m.account {
        CrossoverTraderAccount::Currency(dollars) => dollars == ledger.cash && held(
            ledger.entries,
            m.symbol,
        ) == 0,
        CrossoverTraderAccount::Stock(qty) => ledger.cash == 0 && qty == held(
            ledger.entries,
            m.symbol,
        ),
    }
}

/// A result that is a value, or a halt because an amount does not fit or
/// because there were no bars: no failure for want of funds, of holdings
/// or of a price.
pub open spec fn solvent(result: Result<u64, HaltView>) -> bool {
    match result {
        Ok(_) => true,
        Err(halt) => halt.cause == BacktestError::Overflow || halt.cause
            == BacktestError::EmptyBarStore,
    }
}

/// Shares that have a price keep it when another bar is seen.
pub proof fn seen_bar_keeps_prices(
    entries: Seq<(Seq<char>, u64)>,
    market: Map<Seq<char>, Bar>,
    bar: Bar,
)
    requires
        !unpriced(entries, market),
    ensures
        !unpriced(entries, observed(market, bar)),
{
    if unpriced(entries, observed(market, bar)) {
        let i = choose|i: int|
            0 <= i < entries.len() && (#[trigger] entries[i]).1 > 0 && !observed(
                market,
                bar,
            ).contains_key(entries[i].0);
        assert(entries[i].1 > 0 && !market.contains_key(entries[i].0));
    }
}

/// A credit for a symbol that has a price, and a debit of no more than is
/// held, leave no shares without a price where there were none.
pub proof fn fill_keeps_prices(
    entries: Seq<(Seq<char>, u64)>,
    market: Map<Seq<char>, Bar>,
    symbol: Seq<char>,
    qty: u64,
)
    requires
        !unpriced(entries, market),
    ensures
        market.contains_key(symbol) ==> !unpriced(credited(entries, symbol, qty), market),
        qty <= held(entries, symbol) ==> !unpriced(debited(entries, symbol, qty), market),
{
    let more = credited(entries, symbol, qty);
    if market.contains_key(symbol) && unpriced(more, market) {
        let i = choose|i: int|
            0 <= i < more.len() && (#[trigger] more[i]).1 > 0 && !market.contains_key(more[i].0);
        if i < entries.len() && more[i].0 != symbol {
            assert(more[i] == entries[i]);
        }
    }
    let less = debited(entries, symbol, qty);
    if qty <= held(entries, symbol) && unpriced(less, market) {
        let i = choose|i: int|
            0 <= i < less.len() && (#[trigger] less[i]).1 > 0 && !market.contains_key(less[i].0);
        match slot(entries, symbol) {
            Some(at) => {
                assert(is_slot(entries, symbol, at));
                if i == at {
                    assert(entries[i].1 > 0 && less[i].0 == entries[i].0);
                } else {
                    assert(less[i] == entries[i]);
                }
            },
            None => {},
        }
    }
}

/// One tick of the strategy and the fills of its signals, from a ledger
/// and a strategy in step: a fill is refused only where an amount does not
/// fit, and where none is refused the two are in step again and all shares
/// that are held still have a price.
pub proof fn tick_keeps_in_step(
    ledger: LedgerView,
    m: CrossoverModel,
    market: Map<Seq<char>, Bar>,
    close: u64,
)
    requires
        in_step(ledger, m),
        !unpriced(ledger.entries, market),
    ensures
        ({
            let (ticked, signals) = crossover_tick(m, market);
            let fills = fill_all::<CrossoverTrader>(ledger, ticked, signals, 0, close);
            match fills.refused {
                Some((at, cause)) => cause == BacktestError::Overflow,
                None => in_step(fills.ledger, fills.trader) && !unpriced(
                    fills.ledger.entries,
                    market,
                ),
            }
        }),
{
    let (ticked, signals) = crossover_tick(m, market);
    let fills = fill_all::<CrossoverTrader>(ledger, ticked, signals, 0, close);
    if signals.len() == 1 {
        match fill(ledger, signals[0], close) {
            Err(cause) => {},
            Ok((after, amount)) => {
                let told = notified::<CrossoverTrader>(ticked, signals[0], amount);
                assert(fill_all::<CrossoverTrader>(after, told, signals, 1, close) == Fills {
                    ledger: after,
                    trader: told,
                    refused: None,
                });
                assert(fills.ledger == after && fills.trader == told);
                match signals[0] {
                    Signal::Buy(symbol, dollars) => {
                        held_after_credit(ledger.entries, symbol, amount, symbol);
                        fill_keeps_prices(ledger.entries, market, symbol, amount);
                    },
                    Signal::Sell(symbol, qty) => {
                        held_after_debit(ledger.entries, symbol, qty, symbol);
                        fill_keeps_prices(ledger.entries, market, symbol, qty);
                    },
                }
            },
        }
    }
}

/// A replay from a ledger and a crossover strategy in step, with a price
/// for all shares that are held, ends with a value unless an amount does
/// not fit.
pub proof fn replay_in_step_is_solvent(state: Replay<CrossoverModel>, bars: Seq<Bar>, from: int)
    requires
        0 <= from,
        in_step(state.ledger, state.trader),
        !unpriced(state.ledger.entries, state.market),
    ensures
        solvent(replay::<CrossoverTrader>(state, bars, from).result),
    decreases bars.len() - from,
{
    if from < bars.len() {
        let bar = bars[from];
        let market = observed(state.market, bar);
        let last = Some(bar.timestamp);
        if state.last.is_none() || state.last == last {
            seen_bar_keeps_prices(state.ledger.entries, state.market, bar);
            replay_in_step_is_solvent(Replay { market, last, ..state }, bars, from + 1);
        } else {
            tick_keeps_in_step(state.ledger, state.trader, state.market, bar.close);
            let (ticked, signals) = crossover_tick(state.trader, state.market);
            let fills = fill_all::<CrossoverTrader>(state.ledger, ticked, signals, 0, bar.close);
            if fills.refused.is_none() {
                seen_bar_keeps_prices(fills.ledger.entries, state.market, bar);
                replay_in_step_is_solvent(
                    Replay { ledger: fills.ledger, market, last, trader: fills.trader },
                    bars,
                    from + 1,
                );
            }
        }
    }
}

/// A run of a crossover strategy that starts out of the market and
/// without cash of its own never halts for want of funds, of holdings or
/// of a price: it buys with the cash that the ledger has, sells the shares
/// that the ledger has, and trades one symbol, at whose price it looks
/// before it buys. Such a run ends with a value unless there are no bars
/// or an amount does not fit.
pub proof fn crossover_run_is_solvent(bars: Seq<Bar>, starting_funds: u64, m: CrossoverModel)
    requires
        m.account == CrossoverTraderAccount::Currency(0),
    ensures
        solvent(backtest::<CrossoverTrader>(bars, starting_funds, m).result),
{
    if bars.len() > 0 {
        let funded = CrossoverTrader::after_dollars(m, starting_funds);
        let symbols = CrossoverTrader::listened(funded);
        let entries = credited(Seq::empty(), m.symbol, 0);
        assert(seeded(entries, symbols, 1) == entries);
        assert(seeded(Seq::empty(), symbols, 0) == entries);
        assert(held(Seq::<(Seq<char>, u64)>::empty(), m.symbol) == 0);
        held_after_credit(Seq::empty(), m.symbol, 0, m.symbol);
        assert(entries =~= seq![(m.symbol, 0u64)]);
        assert(!unpriced(entries, Map::<Seq<char>, Bar>::empty()));
        replay_in_step_is_solvent(
            Replay {
                ledger: LedgerView { cash: starting_funds, entries },
                market: Map::empty(),
                last: None,
                trader: funded,
            },
            bars,
            0,
        );
    }
}

} // verus!

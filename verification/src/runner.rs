//! The replay: bars in, one decision per change of timestamp, fills on the
//! ledger, and the value of the ledger at the end.

use crate::error::BacktestError;
use crate::ledger::{
    all_empty, credited, debited, distinct, empty_credit_keeps_empty,
    empty_holdings_are_worth_nothing, held, held_after_credit, held_after_debit, valuation,
    Ledger, LedgerView,
};
use crate::market::observed;
use crate::trader::{signal_views, symbol_views, Signal, StockSignal, Trader};
use vstd::prelude::*;

pub use crate::market::{Bar, MarketInfo};

verus! {

/// Number of scaled units in one unit of currency.
pub const MONEY_SCALING_FACTOR: u64 = 10000;

/// A run that stopped before its end: why, on which signal and at which
/// timestamp, and the ledger as it stood. No signal is named where the
/// run failed outside a fill.
#[derive(Debug)]
pub struct Halted {
    pub cause: BacktestError,
    pub signal: Option<StockSignal>,
    pub timestamp: u64,
    pub ledger: Ledger,
}

/// A halt as a value.
pub struct HaltView {
    pub cause: BacktestError,
    pub signal: Option<Signal>,
    pub timestamp: u64,
    pub ledger: LedgerView,
}

impl View for Halted {
    type V = HaltView;

    open spec fn view(&self) -> HaltView {
        HaltView {
            cause: self.cause,
            signal: match self.signal {
                Some(signal) => Some(signal@),
                None => None,
            },
            timestamp: self.timestamp,
            ledger: self.ledger@,
        }
    }
}

/// The result of a run as a value.
pub open spec fn result_view(result: Result<u64, Halted>) -> Result<u64, HaltView> {
    match result {
        Ok(value) => Ok(value),
        Err(halt) => Err(halt@),
    }
}

/// One signal filled at the price `close`: the ledger that results and the
/// amount that came in, or why the fill is refused.
///
/// A purchase spends all of `dollars` and brings `dollars / close` shares,
/// rounded down. A sale takes `qty` shares and brings `qty * close`. A
/// purchase at price zero buys no finite quantity and is refused like any
/// amount that does not fit.
pub open spec fn fill(ledger: LedgerView, signal: Signal, close: u64) -> Result<
    (LedgerView, u64),
    BacktestError,
> {
    match signal {
        Signal::Buy(symbol, dollars) => {
            if dollars > ledger.cash {
                Err(BacktestError::InsufficientFunds)
            } else if close == 0 || held(ledger.entries, symbol) + dollars / close > u64::MAX {
                Err(BacktestError::Overflow)
            } else {
                Ok(
                    (
                        LedgerView {
                            cash: (ledger.cash - dollars) as u64,
                            entries: credited(ledger.entries, symbol, dollars / close),
                        },
                        dollars / close,
                    ),
                )
            }
        },
        Signal::Sell(symbol, qty) => {
            if qty > held(ledger.entries, symbol) {
                Err(BacktestError::InsufficientHoldings)
            } else if ledger.cash + qty * close > u64::MAX {
                Err(BacktestError::Overflow)
            } else {
                Ok(
                    (
                        LedgerView {
                            cash: (ledger.cash + qty * close) as u64,
                            entries: debited(ledger.entries, symbol, qty),
                        },
                        (qty * close) as u64,
                    ),
                )
            }
        },
    }
}

/// Fills `signal` on `ledger` at the price `close` and returns what came
/// in: the shares of a purchase, the cash of a sale. A fill that is
/// refused leaves the ledger as it was.
pub fn apply_signal(ledger: &mut Ledger, signal: &StockSignal, close: u64) -> (filled: Result<
    u64,
    BacktestError,
>)
    requires
        old(ledger).wf(),
    ensures
        final(ledger).wf(),
        match fill(old(ledger)@, signal@, close) {
            Ok((after, amount)) => filled == Ok::<u64, BacktestError>(amount) && final(ledger)@
                == after,
            Err(cause) => filled == Err::<u64, BacktestError>(cause)
                && final(ledger)@ == old(ledger)@,
        },
{
    match signal {
        StockSignal::Buy(symbol, dollars) => {
            if *dollars > ledger.cash() {
                return Err(BacktestError::InsufficientFunds);
            }
            if close == 0 {
                return Err(BacktestError::Overflow);
            }
            let qty: u64 = *dollars / close;
            if ledger.holding(symbol).checked_add(qty).is_none() {
                return Err(BacktestError::Overflow);
            }
            let _ = ledger.debit_cash(*dollars);
            let _ = ledger.credit_holding(symbol, qty);
            Ok(qty)
        },
        StockSignal::Sell(symbol, qty) => {
            if *qty > ledger.holding(symbol) {
                return Err(BacktestError::InsufficientHoldings);
            }
            let proceeds: u64 = match qty.checked_mul(close) {
                Some(proceeds) => proceeds,
                None => {
                    return Err(BacktestError::Overflow);
                },
            };
            if ledger.cash().checked_add(proceeds).is_none() {
                return Err(BacktestError::Overflow);
            }
            let _ = ledger.debit_holding(symbol, *qty);
            let _ = ledger.credit_cash(proceeds);
            Ok(proceeds)
        },
    }
}

/// The strategy's state after the notice of a fill: of the shares that a
/// purchase brought, or of the cash that a sale brought.
pub open spec fn notified<T: Trader>(m: T::Model, signal: Signal, amount: u64) -> T::Model {
    match signal {
        Signal::Buy(symbol, _) => T::after_stock(m, symbol, amount),
        Signal::Sell(_, _) => T::after_dollars(m, amount),
    }
}

/// Where a list of signals leaves a ledger and a strategy.
pub struct Fills<M> {
    /// The ledger after the last fill that was made.
    pub ledger: LedgerView,
    /// The strategy after the notice of that fill.
    pub trader: M,
    /// The first signal that was refused, with its place and the reason.
    pub refused: Option<(int, BacktestError)>,
}

/// The signals from place `from` on, filled in order at the price `close`,
/// the strategy told of each fill, up to the first that is refused.
pub open spec fn fill_all<T: Trader>(
    ledger: LedgerView,
    m: T::Model,
    signals: Seq<Signal>,
    from: int,
    close: u64,
) -> Fills<T::Model>
    decreases signals.len() - from,
{
    if from < 0 || from >= signals.len() {
        Fills { ledger, trader: m, refused: None }
    } else {
        match fill(ledger, signals[from], close) {
            Err(cause) => Fills { ledger, trader: m, refused: Some((from, cause)) },
            Ok((after, amount)) => fill_all::<T>(
                after,
                notified::<T>(m, signals[from], amount),
                signals,
                from + 1,
                close,
            ),
        }
    }
}

/// Fills `signals` in order on `ledger` at the price `close` and tells the
/// strategy of each fill. Stops at the first signal that is refused and
/// returns its place and the reason; the fills before it stand.
pub fn apply_signals<T: Trader>(
    ledger: &mut Ledger,
    tested_trader: &mut T,
    signals: &Vec<StockSignal>,
    close: u64,
) -> (done: Result<(), (usize, BacktestError)>)
    requires
        old(ledger).wf(),
        old(tested_trader).valid(),
    ensures
        final(ledger).wf(),
        final(tested_trader).valid(),
        ({
            let fills = fill_all::<T>(
                old(ledger)@,
                old(tested_trader).model(),
                signal_views(signals@),
                0,
                close,
            );
            &&& final(ledger)@ == fills.ledger
            &&& final(tested_trader).model() == fills.trader
            &&& match done {
                Ok(()) => fills.refused.is_none(),
                Err((at, cause)) => at < signals@.len() && fills.refused == Some(
                    (at as int, cause),
                ),
            }
        }),
{
    let ghost views = signal_views(signals@);
    let ghost whole = fill_all::<T>(old(ledger)@, old(tested_trader).model(), views, 0, close);
    let mut i: usize = 0;
    while i < signals.len()
        invariant
            i <= signals@.len(),
            views == signal_views(signals@),
            ledger.wf(),
            tested_trader.valid(),
            whole == fill_all::<T>(old(ledger)@, old(tested_trader).model(), views, 0, close),
            fill_all::<T>(ledger@, tested_trader.model(), views, i as int, close) == whole,
        decreases signals@.len() - i,
    {
        let signal = &signals[i];
        assert(views[i as int] == signal@);
        match apply_signal(ledger, signal, close) {
            Err(cause) => {
                return Err((i, cause));
            },
            Ok(amount) => {
                match signal {
                    StockSignal::Buy(symbol, _) => {
                        tested_trader.give_stock(symbol.clone(), amount);
                    },
                    StockSignal::Sell(_, _) => {
                        tested_trader.give_dollars(amount);
                    },
                }
            },
        }
        i += 1;
    }
    Ok(())
}

/// A replay between two bars: the ledger, the latest bar of every symbol,
/// the timestamp of the bar before, and the strategy.
pub struct Replay<M> {
    pub ledger: LedgerView,
    pub market: Map<Seq<char>, Bar>,
    pub last: Option<u64>,
    pub trader: M,
}

/// How a run ends: its value or its halt, and the strategy as it is left.
pub struct Outcome<M> {
    pub result: Result<u64, HaltView>,
    pub trader: M,
}

/// The timestamp that a halt after the last bar carries.
pub open spec fn last_timestamp(last: Option<u64>) -> u64 {
    match last {
        Some(timestamp) => timestamp,
        None => 0,
    }
}

/// The replay of the bars from place `from` on.
///
/// After the last bar the run ends with the value of the ledger. A bar
/// with the timestamp of the bar before it, and the very first bar, are
/// only recorded. A bar with another timestamp opens a tick: the strategy
/// decides on the bars recorded before it, the bar is recorded, and the
/// signals are filled at its close. The first fill that is refused halts
/// the run.
pub open spec fn replay<T: Trader>(state: Replay<T::Model>, bars: Seq<Bar>, from: int) -> Outcome<
    T::Model,
>
    decreases bars.len() - from,
{
    if from < 0 || from >= bars.len() {
        Outcome {
            result: match valuation(state.ledger, state.market) {
                Ok(value) => Ok(value),
                Err(cause) => Err(
                    HaltView {
                        cause,
                        signal: None,
                        timestamp: last_timestamp(state.last),
                        ledger: state.ledger,
                    },
                ),
            },
            trader: state.trader,
        }
    } else {
        let bar = bars[from];
        let market = observed(state.market, bar);
        let last = Some(bar.timestamp);
        if state.last.is_none() || state.last == last {
            replay::<T>(Replay { market, last, ..state }, bars, from + 1)
        } else {
            let signals = T::tick_signals(state.trader, state.market);
            let fills = fill_all::<T>(
                state.ledger,
                T::after_tick(state.trader, state.market),
                signals,
                0,
                bar.close,
            );
            match fills.refused {
                Some((at, cause)) => Outcome {
                    result: Err(
                        HaltView {
                            cause,
                            signal: Some(signals[at]),
                            timestamp: bar.timestamp,
                            ledger: fills.ledger,
                        },
                    ),
                    trader: fills.trader,
                },
                None => replay::<T>(
                    Replay { ledger: fills.ledger, market, last, trader: fills.trader },
                    bars,
                    from + 1,
                ),
            }
        }
    }
}

/// The entries after each of the symbols from place `from` on got an
/// entry, at zero where it had none.
pub open spec fn seeded(entries: Seq<(Seq<char>, u64)>, symbols: Seq<Seq<char>>, from: int) -> Seq<
    (Seq<char>, u64),
>
    decreases symbols.len() - from,
{
    if from < 0 || from >= symbols.len() {
        entries
    } else {
        seeded(credited(entries, symbols[from], 0), symbols, from + 1)
    }
}

/// A whole run. On no bars at all it halts at once and the strategy is
/// not touched. Otherwise the strategy is told of the starting funds, and
/// the bars are replayed on a ledger that holds those funds and an empty
/// entry for each symbol that the strategy reads.
pub open spec fn backtest<T: Trader>(bars: Seq<Bar>, starting_funds: u64, m: T::Model) -> Outcome<
    T::Model,
> {
    if bars.len() == 0 {
        Outcome {
            result: Err(
                HaltView {
                    cause: BacktestError::EmptyBarStore,
                    signal: None,
                    timestamp: 0,
                    ledger: LedgerView { cash: starting_funds, entries: Seq::empty() },
                },
            ),
            trader: m,
        }
    } else {
        let funded = T::after_dollars(m, starting_funds);
        replay::<T>(
            Replay {
                ledger: LedgerView {
                    cash: starting_funds,
                    entries: seeded(Seq::empty(), T::listened(funded), 0),
                },
                market: Map::empty(),
                last: None,
                trader: funded,
            },
            bars,
            0,
        )
    }
}

/// Gives each of `symbols` an entry on `ledger`, at zero where it had
/// none. Cash and quantities stay as they are.
pub fn seed_holdings(ledger: &mut Ledger, symbols: &Vec<String>)
    requires
        old(ledger).wf(),
    ensures
        final(ledger).wf(),
        final(ledger)@.cash == old(ledger)@.cash,
        final(ledger)@.entries == seeded(old(ledger)@.entries, symbol_views(symbols@), 0),
{
    let ghost views = symbol_views(symbols@);
    let mut i: usize = 0;
    while i < symbols.len()
        invariant
            i <= symbols@.len(),
            views == symbol_views(symbols@),
            ledger.wf(),
            ledger@.cash == old(ledger)@.cash,
            seeded(ledger@.entries, views, i as int) == seeded(old(ledger)@.entries, views, 0),
        decreases symbols@.len() - i,
    {
        assert(views[i as int] == symbols@[i as int]@);
        let _ = ledger.credit_holding(&symbols[i], 0);
        i += 1;
    }
}

/// Runs `tested_trader` over `bars`, which come in the order of their
/// timestamps, starting with `starting_funds` in cash. Returns the value
/// of the ledger after the last bar, or the halt at the first failure.
pub fn run_backtest<T: Trader>(
    bars: &Vec<Bar>,
    starting_funds: u64,
    tested_trader: &mut T,
) -> (result: Result<u64, Halted>)
    requires
        old(tested_trader).valid(),
    ensures
        final(tested_trader).valid(),
        result_view(result) == backtest::<T>(
            bars@,
            starting_funds,
            old(tested_trader).model(),
        ).result,
        final(tested_trader).model() == backtest::<T>(
            bars@,
            starting_funds,
            old(tested_trader).model(),
        ).trader,
        result is Err ==> result->Err_0.ledger.wf(),
{
    let ghost whole = backtest::<T>(bars@, starting_funds, old(tested_trader).model());
    let mut ledger = Ledger::new(starting_funds);
    if bars.len() == 0 {
        return Err(
            Halted { cause: BacktestError::EmptyBarStore, signal: None, timestamp: 0, ledger },
        );
    }
    tested_trader.give_dollars(starting_funds);
    let symbols = tested_trader.listens_to();
    seed_holdings(&mut ledger, &symbols);
    let mut market_info = MarketInfo::new();
    let mut last: Option<u64> = None;
    let mut i: usize = 0;
    while i < bars.len()
        invariant
            i <= bars@.len(),
            ledger.wf(),
            tested_trader.valid(),
            whole == backtest::<T>(bars@, starting_funds, old(tested_trader).model()),
            replay::<T>(
                Replay {
                    ledger: ledger@,
                    market: market_info@,
                    last,
                    trader: tested_trader.model(),
                },
                bars@,
                i as int,
            ) == whole,
        decreases bars@.len() - i,
    {
        let bar = &bars[i];
        let opens_tick = match last {
            Some(timestamp) => timestamp != bar.timestamp,
            None => false,
        };
        if opens_tick {
            let signals = tested_trader.new_tick(&market_info);
            market_info.observe(bar);
            match apply_signals(&mut ledger, tested_trader, &signals, bar.close) {
                Ok(()) => {},
                Err((at, cause)) => {
                    let signal = signals[at].duplicate();
                    assert(signal_views(signals@)[at as int] == signal@);
                    return Err(
                        Halted { cause, signal: Some(signal), timestamp: bar.timestamp, ledger },
                    );
                },
            }
        } else {
            market_info.observe(bar);
        }
        last = Some(bar.timestamp);
        i += 1;
    }
    match ledger.total_value(&market_info) {
        Ok(value) => Ok(value),
        Err(cause) => Err(
            Halted { cause, signal: None, timestamp: last_timestamp_of(last), ledger },
        ),
    }
}

/// The timestamp of the bar before, or zero where there was none.
fn last_timestamp_of(last: Option<u64>) -> (timestamp: u64)
    ensures
        timestamp == last_timestamp(last),
{
    match last {
        Some(timestamp) => timestamp,
        None => 0,
    }
}

/// A purchase for more than the cash at hand is refused for want of funds,
/// whatever the price and the holdings.
pub proof fn purchase_beyond_cash_is_refused(
    ledger: LedgerView,
    symbol: Seq<char>,
    dollars: u64,
    close: u64,
)
    requires
        dollars > ledger.cash,
    ensures
        fill(ledger, Signal::Buy(symbol, dollars), close) == Err::<
            (LedgerView, u64),
            BacktestError,
        >(BacktestError::InsufficientFunds),
{
}

/// A sale of more than is held is refused for want of holdings, whatever
/// the price and the cash.
pub proof fn sale_beyond_holdings_is_refused(
    ledger: LedgerView,
    symbol: Seq<char>,
    qty: u64,
    close: u64,
)
    requires
        qty > held(ledger.entries, symbol),
    ensures
        fill(ledger, Signal::Sell(symbol, qty), close) == Err::<(LedgerView, u64), BacktestError>(
            BacktestError::InsufficientHoldings,
        ),
{
}

/// A purchase that is filled, followed by the sale at the same price of
/// the shares that it brought: the sale is filled too, every holding is
/// what it was before the purchase, and the cash is short of what it was
/// by the remainder of `dollars` divided by the price, which is less than
/// the price.
pub proof fn round_trip_returns_cash(
    ledger: LedgerView,
    symbol: Seq<char>,
    dollars: u64,
    close: u64,
    other: Seq<char>,
)
    requires
        distinct(ledger.entries),
        fill(ledger, Signal::Buy(symbol, dollars), close) is Ok,
    ensures
        ({
            let (bought, qty) = fill(ledger, Signal::Buy(symbol, dollars), close)->Ok_0;
            let sold = fill(bought, Signal::Sell(symbol, qty), close);
            &&& qty == dollars / close
            &&& sold is Ok
            &&& sold->Ok_0.1 == qty * close
            &&& sold->Ok_0.0.cash == ledger.cash - dollars % close
            &&& 0 <= ledger.cash - sold->Ok_0.0.cash <= close - 1
            &&& held(sold->Ok_0.0.entries, other) == held(ledger.entries, other)
        }),
{
    let qty = (dollars / close) as u64;
    let bought = credited(ledger.entries, symbol, qty);
    held_after_credit(ledger.entries, symbol, qty, other);
    held_after_credit(ledger.entries, symbol, qty, symbol);
    held_after_debit(bought, symbol, qty, other);
    held_after_debit(bought, symbol, qty, symbol);
    assert(qty * close == dollars - dollars % close && 0 <= dollars % close < close)
        by (nonlinear_arith)
        requires
            close > 0,
            qty == dollars / close,
    ;
}

/// Seeding a ledger without shares leaves it without shares.
pub proof fn seeding_adds_no_shares(
    entries: Seq<(Seq<char>, u64)>,
    symbols: Seq<Seq<char>>,
    from: int,
)
    requires
        all_empty(entries),
    ensures
        all_empty(seeded(entries, symbols, from)),
    decreases symbols.len() - from,
{
    if 0 <= from < symbols.len() {
        empty_credit_keeps_empty(entries, symbols[from]);
        seeding_adds_no_shares(credited(entries, symbols[from], 0), symbols, from + 1);
    }
}

/// While the bars keep the timestamp of the bar before them, the strategy
/// is not asked and nothing is filled: a replay of such bars on a ledger
/// without shares ends with the cash as its value and the strategy as it
/// was.
pub proof fn same_timestamp_makes_no_decision<T: Trader>(
    state: Replay<T::Model>,
    bars: Seq<Bar>,
    from: int,
)
    requires
        0 <= from,
        all_empty(state.ledger.entries),
        forall|i: int|
            from <= i < bars.len() ==> state.last.is_none() || state.last == Some(
                (#[trigger] bars[i]).timestamp,
            ),
        forall|i: int, j: int|
            from <= i < bars.len() && from <= j < bars.len() ==> (#[trigger] bars[i]).timestamp == (
            #[trigger] bars[j]).timestamp,
    ensures
        replay::<T>(state, bars, from) == (Outcome::<T::Model> {
            result: Ok(state.ledger.cash),
            trader: state.trader,
        }),
    decreases bars.len() - from,
{
    if from >= bars.len() {
        empty_holdings_are_worth_nothing(state.ledger, state.market);
    } else {
        let bar = bars[from];
        let next = Replay {
            market: observed(state.market, bar),
            last: Some(bar.timestamp),
            ..state
        };
        assert forall|i: int| from + 1 <= i < bars.len() implies next.last == Some(
            (#[trigger] bars[i]).timestamp,
        ) by {
            assert(bars[from].timestamp == bars[i].timestamp);
        }
        same_timestamp_makes_no_decision::<T>(next, bars, from + 1);
    }
}

/// The first timestamp of a run only sets the scene: a run on bars that
/// all carry one timestamp makes no decision. It returns the starting
/// funds, and the strategy has heard of those funds and of nothing else.
pub proof fn first_timestamp_is_warm_up<T: Trader>(
    bars: Seq<Bar>,
    starting_funds: u64,
    m: T::Model,
)
    requires
        bars.len() > 0,
        forall|i: int| 0 <= i < bars.len() ==> (#[trigger] bars[i]).timestamp == bars[0].timestamp,
    ensures
        backtest::<T>(bars, starting_funds, m) == (Outcome::<T::Model> {
            result: Ok(starting_funds),
            trader: T::after_dollars(m, starting_funds),
        }),
{
    let funded = T::after_dollars(m, starting_funds);
    seeding_adds_no_shares(Seq::empty(), T::listened(funded), 0);
    let state = Replay {
        ledger: LedgerView {
            cash: starting_funds,
            entries: seeded(Seq::empty(), T::listened(funded), 0),
        },
        market: Map::empty(),
        last: None,
        trader: funded,
    };
    same_timestamp_makes_no_decision::<T>(state, bars, 0);
}

} // verus!

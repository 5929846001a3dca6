//! Trade signals, the interface of a strategy, and the moving-average
//! crossover strategy.

use crate::error::BacktestError;
use crate::market::{known_price, Bar, MarketInfo};
use vstd::prelude::*;

verus! {

/// A trade that a strategy asks for.
#[derive(Debug)]
pub enum StockSignal {
    /// Spend this amount of cash on the symbol.
    Buy(String, u64),
    /// Sell this quantity of the symbol.
    Sell(String, u64),
}

/// A signal as a value.
pub enum Signal {
    Buy(Seq<char>, u64),
    Sell(Seq<char>, u64),
}

impl View for StockSignal {
    type V = Signal;

    open spec fn view(&self) -> Signal {
        match *self {
            StockSignal::Buy(symbol, dollars) => Signal::Buy(symbol@, dollars),
            StockSignal::Sell(symbol, qty) => Signal::Sell(symbol@, qty),
        }
    }
}

impl StockSignal {
    /// A signal with the same symbol and amount as this one.
    pub fn duplicate(&self) -> (copy: StockSignal)
        ensures
            copy == *self,
    {
        match self {
            StockSignal::Buy(symbol, dollars) => StockSignal::Buy(symbol.clone(), *dollars),
            StockSignal::Sell(symbol, qty) => StockSignal::Sell(symbol.clone(), *qty),
        }
    }
}

/// The signals of a list, each as a value.
pub open spec fn signal_views(signals: Seq<StockSignal>) -> Seq<Signal> {
    Seq::new(signals.len(), |i: int| signals[i]@)
}

/// The symbols of a list, each as a value.
pub open spec fn symbol_views(symbols: Seq<String>) -> Seq<Seq<char>> {
    Seq::new(symbols.len(), |i: int| symbols[i]@)
}

/// A trading strategy. It advises and owns no money: what it knows of cash
/// and shares it has from the notices `give_dollars` and `give_stock`.
///
/// Each method that changes the strategy says, over the strategy's model,
/// what state it leaves, so that a run with the strategy is a function of
/// the bars and the strategy's first state.
pub trait Trader {
    /// The strategy's state as a value.
    type Model;

    /// The state the strategy is in.
    spec fn model(&self) -> Self::Model;

    /// What holds of the strategy between calls.
    spec fn valid(&self) -> bool;

    /// The symbols that the strategy reads in state `m`.
    spec fn listened(m: Self::Model) -> Seq<Seq<char>>;

    /// The signals that a tick yields in state `m` on `market`.
    spec fn tick_signals(m: Self::Model, market: Map<Seq<char>, Bar>) -> Seq<Signal>;

    /// The state after a tick in state `m` on `market`.
    spec fn after_tick(m: Self::Model, market: Map<Seq<char>, Bar>) -> Self::Model;

    /// The state after a notice that `amount` of cash came in.
    spec fn after_dollars(m: Self::Model, amount: u64) -> Self::Model;

    /// The state after a notice that `qty` shares of `symbol` came in.
    spec fn after_stock(m: Self::Model, symbol: Seq<char>, qty: u64) -> Self::Model;

    /// What the strategy takes its position to be worth in state `m`.
    spec fn worth(m: Self::Model) -> Option<u64>;

    /// The symbols whose bars the strategy reads.
    fn listens_to(&self) -> (symbols: Vec<String>)
        requires
            self.valid(),
        ensures
            symbol_views(symbols@) == Self::listened(self.model()),
    ;

    /// Forgets what the strategy has derived from past ticks.
    fn init(&mut self)
        requires
            old(self).valid(),
        ensures
            final(self).valid(),
    ;

    /// One tick, one decision: called once per change of timestamp, with
    /// the latest bar of every symbol before the change. The signals are
    /// filled in the order in which they are returned.
    fn new_tick(&mut self, market_info: &MarketInfo) -> (signals: Vec<StockSignal>)
        requires
            old(self).valid(),
        ensures
            final(self).valid(),
            final(self).model() == Self::after_tick(old(self).model(), market_info@),
            signal_views(signals@) == Self::tick_signals(old(self).model(), market_info@),
    ;

    /// Called at the end of a trading day.
    fn day_end();

    /// Notice of a fill, or of the first funds: `amount` of cash came in,
    /// the proceeds of a sale that was filled or the funds that the run
    /// starts with.
    fn give_dollars(&mut self, amount: u64)
        requires
            old(self).valid(),
        ensures
            final(self).valid(),
            final(self).model() == Self::after_dollars(old(self).model(), amount),
    ;

    /// Notice of a fill: a purchase was filled and brought `qty` shares of
    /// `symbol`.
    fn give_stock(&mut self, symbol: String, qty: u64)
        requires
            old(self).valid(),
        ensures
            final(self).valid(),
            final(self).model() == Self::after_stock(old(self).model(), symbol@, qty),
    ;

    /// A hint at what the strategy takes its position to be worth, for
    /// diagnostics only: `None` where it cannot say. The value of a run is
    /// that of the ledger.
    fn money_sum(&self) -> (value: Option<u64>)
        requires
            self.valid(),
        ensures
            value == Self::worth(self.model()),
    ;
}

/// What the crossover strategy believes it has: cash while it is out of
/// the market, shares while it is in.
#[derive(Clone, Copy, Debug, PartialEq, Eq, Structural)]
pub enum CrossoverTraderAccount {
    Currency(u64),
    Stock(u64),
}

/// The moving-average crossover strategy on one symbol: all in when the
/// mean of the last `fast_window` closes is above that of the last
/// `slow_window` closes, all out when it is below.
#[derive(Debug)]
pub struct CrossoverTrader {
    pub symbol: String,
    pub fast_window: usize,
    pub slow_window: usize,
    pub prices: Vec<u64>,
    pub account: CrossoverTraderAccount,
}

/// A crossover strategy as a value.
pub struct CrossoverModel {
    pub symbol: Seq<char>,
    pub fast_window: int,
    pub slow_window: int,
    pub prices: Seq<u64>,
    pub account: CrossoverTraderAccount,
}

/// The sum of the prices.
pub open spec fn sum(prices: Seq<u64>) -> int
    decreases prices.len(),
{
    if prices.len() == 0 {
        0
    } else {
        sum(prices.drop_last()) + prices.last()
    }
}

/// The mean of the last `window` prices, rounded down.
pub open spec fn trailing_mean_of(prices: Seq<u64>, window: int) -> int
    recommends
        0 < window <= prices.len(),
{
    sum(prices.subrange(prices.len() - window, prices.len() as int)) / window
}

/// The windows that a crossover strategy accepts.
pub open spec fn windows_ok(fast_window: int, slow_window: int) -> bool {
    0 < fast_window < slow_window
}

/// `a + b`, or the largest amount where the sum does not fit.
pub open spec fn capped_sum(a: u64, b: u64) -> u64 {
    if a + b > u64::MAX {
        u64::MAX
    } else {
        (a + b) as u64
    }
}

/// One tick of the crossover strategy: the state it leaves and the signals
/// it gives.
///
/// The close of the tracked symbol joins the history. Once the history has
/// `slow_window` prices, the two means are compared: out of the market and
/// fast above slow buys with all the cash, in the market and fast below
/// slow sells all the shares. Anything else, a tie too, gives no signal.
/// While the symbol has no price, nothing happens at all.
pub open spec fn crossover_tick(m: CrossoverModel, market: Map<Seq<char>, Bar>) -> (
    CrossoverModel,
    Seq<Signal>,
) {
    match known_price(market, m.symbol) {
        None => (m, Seq::empty()),
        Some(close) => {
            let prices = m.prices.push(close);
            let quiet = (CrossoverModel { prices, ..m }, Seq::<Signal>::empty());
            if prices.len() < m.slow_window {
                quiet
            } else {
                let fast = trailing_mean_of(prices, m.fast_window);
                let slow = trailing_mean_of(prices, m.slow_window);
                match m.account {
                    CrossoverTraderAccount::Currency(dollars) => if fast > slow {
                        (
                            CrossoverModel {
                                prices,
                                account: CrossoverTraderAccount::Stock(0),
                                ..m
                            },
                            seq![Signal::Buy(m.symbol, dollars)],
                        )
                    } else {
                        quiet
                    },
                    CrossoverTraderAccount::Stock(qty) => if fast < slow {
                        (
                            CrossoverModel {
                                prices,
                                account: CrossoverTraderAccount::Currency(0),
                                ..m
                            },
                            seq![Signal::Sell(m.symbol, qty)],
                        )
                    } else {
                        quiet
                    },
                }
            }
        },
    }
}

/// The mean of the last `window` prices, rounded down.
pub fn trailing_mean(prices: &Vec<u64>, window: usize) -> (mean: u64)
    requires
        0 < window <= prices@.len(),
    ensures
        mean == trailing_mean_of(prices@, window as int),
{
    let start: usize = prices.len() - window;
    let mut total: u128 = 0;
    let mut i: usize = start;
    while i < prices.len()
        invariant
            start <= i <= prices@.len(),
            start == prices@.len() - window,
            total == sum(prices@.subrange(start as int, i as int)),
            total <= (i - start) * u64::MAX,
        decreases prices@.len() - i,
    {
        let price: u64 = prices[i];
        proof {
            assert(prices@.subrange(start as int, i + 1).drop_last() =~= prices@.subrange(
                start as int,
                i as int,
            ));
            assert((i + 1 - start) * u64::MAX == (i - start) * u64::MAX + u64::MAX)
                by (nonlinear_arith);
            assert((i + 1 - start) * u64::MAX <= u64::MAX * u64::MAX) by (nonlinear_arith)
                requires
                    0 <= i + 1 - start <= u64::MAX,
            ;
        }
        total = total + price as u128;
        i += 1;
    }
    let mean: u128 = total / (window as u128);
    proof {
        assert(total / (window as u128) <= u64::MAX) by (nonlinear_arith)
            requires
                total <= window * u64::MAX,
                window > 0,
        ;
    }
    mean as u64
}

impl CrossoverTrader {
    /// The strategy on `AAPL` with windows of 150 and 200 ticks, out of
    /// the market and without cash.
    pub fn new() -> (trader: CrossoverTrader)
        ensures
            trader.valid(),
            trader.model() == (CrossoverModel {
                symbol: "AAPL"@,
                fast_window: 150,
                slow_window: 200,
                prices: Seq::empty(),
                account: CrossoverTraderAccount::Currency(0),
            }),
    {
        CrossoverTrader {
            symbol: "AAPL".to_owned(),
            fast_window: 150,
            slow_window: 200,
            prices: Vec::new(),
            account: CrossoverTraderAccount::Currency(0),
        }
    }

    /// The strategy on `symbol` with the given windows, out of the market
    /// and without cash. The windows must be `0 < fast_window <
    /// slow_window`.
    pub fn with_windows(symbol: String, fast_window: usize, slow_window: usize) -> (made: Result<
        CrossoverTrader,
        BacktestError,
    >)
        ensures
            match made {
                Ok(trader) => windows_ok(fast_window as int, slow_window as int) && trader.valid()
                    && trader.model() == (CrossoverModel {
                    symbol: symbol@,
                    fast_window: fast_window as int,
                    slow_window: slow_window as int,
                    prices: Seq::empty(),
                    account: CrossoverTraderAccount::Currency(0),
                }),
                Err(e) => !windows_ok(fast_window as int, slow_window as int) && e
                    == BacktestError::InvalidStrategyConfiguration,
            },
    {
        if fast_window == 0 || fast_window >= slow_window {
            return Err(BacktestError::InvalidStrategyConfiguration);
        }
        Ok(
            CrossoverTrader {
                symbol,
                fast_window,
                slow_window,
                prices: Vec::new(),
                account: CrossoverTraderAccount::Currency(0),
            },
        )
    }
}

impl Trader for CrossoverTrader {
    type Model = CrossoverModel;

    open spec fn model(&self) -> CrossoverModel {
        CrossoverModel {
            symbol: self.symbol@,
            fast_window: self.fast_window as int,
            slow_window: self.slow_window as int,
            prices: self.prices@,
            account: self.account,
        }
    }

    open spec fn valid(&self) -> bool {
        windows_ok(self.fast_window as int, self.slow_window as int)
    }

    open spec fn listened(m: CrossoverModel) -> Seq<Seq<char>> {
        seq![m.symbol]
    }

    open spec fn tick_signals(m: CrossoverModel, market: Map<Seq<char>, Bar>) -> Seq<Signal> {
        crossover_tick(m, market).1
    }

    open spec fn after_tick(m: CrossoverModel, market: Map<Seq<char>, Bar>) -> CrossoverModel {
        crossover_tick(m, market).0
    }

    open spec fn after_dollars(m: CrossoverModel, amount: u64) -> CrossoverModel {
        match m.account {
            CrossoverTraderAccount::Currency(dollars) => CrossoverModel {
                account: CrossoverTraderAccount::Currency(capped_sum(dollars, amount)),
                ..m
            },
            CrossoverTraderAccount::Stock(_) => m,
        }
    }

    open spec fn after_stock(m: CrossoverModel, symbol: Seq<char>, qty: u64) -> CrossoverModel {
        match m.account {
            CrossoverTraderAccount::Stock(have) if symbol == m.symbol => CrossoverModel {
                account: CrossoverTraderAccount::Stock(capped_sum(have, qty)),
                ..m
            },
            _ => m,
        }
    }

    open spec fn worth(m: CrossoverModel) -> Option<u64> {
        match m.account {
            CrossoverTraderAccount::Currency(dollars) => Some(dollars),
            CrossoverTraderAccount::Stock(qty) => if m.prices.len() > 0 && qty * m.prices.last()
                <= u64::MAX {
                Some((qty * m.prices.last()) as u64)
            } else {
                None
            },
        }
    }

    /// The one symbol that the strategy trades.
    fn listens_to(&self) -> (symbols: Vec<String>) {
        let mut symbols: Vec<String> = Vec::new();
        symbols.push(self.symbol.clone());
        assert(symbol_views(symbols@) =~= seq![self.symbol@]);
        symbols
    }

    /// Empties the price history; windows, symbol and account stay.
    fn init(&mut self)
        ensures
            final(self).model() == (CrossoverModel { prices: Seq::empty(), ..old(self).model() }),
    {
        self.prices = Vec::new();
    }

    fn new_tick(&mut self, market_info: &MarketInfo) -> (signals: Vec<StockSignal>)
        ensures
            signals@.len() <= 1,
            final(self).prices@.len() < old(self).slow_window ==> signals@.len() == 0,
    {
        let mut signals: Vec<StockSignal> = Vec::new();
        let close: u64 = match market_info.price_of(&self.symbol) {
            Some(close) => close,
            None => {
                assert(signal_views(signals@) =~= Seq::<Signal>::empty());
                return signals;
            },
        };
        self.prices.push(close);
        if self.prices.len() < self.slow_window {
            assert(signal_views(signals@) =~= Seq::<Signal>::empty());
            return signals;
        }
        let fast_mean: u64 = trailing_mean(&self.prices, self.fast_window);
        let slow_mean: u64 = trailing_mean(&self.prices, self.slow_window);
        match self.account {
            CrossoverTraderAccount::Currency(dollars) => {
                if fast_mean > slow_mean {
                    self.account = CrossoverTraderAccount::Stock(0);
                    signals.push(StockSignal::Buy(self.symbol.clone(), dollars));
                    assert(signal_views(signals@) =~= seq![Signal::Buy(self.symbol@, dollars)]);
                    return signals;
                }
            },
            CrossoverTraderAccount::Stock(qty) => {
                if fast_mean < slow_mean {
                    self.account = CrossoverTraderAccount::Currency(0);
                    signals.push(StockSignal::Sell(self.symbol.clone(), qty));
                    assert(signal_views(signals@) =~= seq![Signal::Sell(self.symbol@, qty)]);
                    return signals;
                }
            },
        }
        assert(signal_views(signals@) =~= Seq::<Signal>::empty());
        signals
    }

    fn day_end() {
    }

    /// While out of the market the cash grows by `amount`, up to the
    /// largest amount; while in the market the notice changes nothing.
    fn give_dollars(&mut self, amount: u64) {
        match self.account {
            CrossoverTraderAccount::Currency(dollars) => {
                self.account = CrossoverTraderAccount::Currency(dollars.saturating_add(amount));
            },
            CrossoverTraderAccount::Stock(_) => {},
        }
    }

    /// While in the market the shares of the traded symbol grow by `qty`,
    /// up to the largest amount; any other notice changes nothing.
    fn give_stock(&mut self, symbol: String, qty: u64) {
        match self.account {
            CrossoverTraderAccount::Stock(have) => {
                if symbol == self.symbol {
                    self.account = CrossoverTraderAccount::Stock(have.saturating_add(qty));
                }
            },
            CrossoverTraderAccount::Currency(_) => {},
        }
    }

    /// The cash while out of the market; while in, the shares at the last
    /// price of the history, or `None` where there is no such price or the
    /// product does not fit.
    fn money_sum(&self) -> (value: Option<u64>) {
        match self.account {
            CrossoverTraderAccount::Currency(dollars) => Some(dollars),
            CrossoverTraderAccount::Stock(qty) => {
                if self.prices.len() == 0 {
                    None
                } else {
                    qty.checked_mul(self.prices[self.prices.len() - 1])
                }
            },
        }
    }
}

/// The strategy gives no signal on a tick that leaves its history shorter
/// than the slow window.
pub proof fn quiet_while_warming_up(m: CrossoverModel, market: Map<Seq<char>, Bar>)
    requires
        crossover_tick(m, market).0.prices.len() < m.slow_window,
    ensures
        crossover_tick(m, market).1 == Seq::<Signal>::empty(),
{
}

/// A tick changes the history by at most one price and never the symbol or
/// the windows, and gives at most one signal. A purchase comes only from
/// out of the market with the fast mean above the slow one, asks for all
/// the cash and leaves the strategy in the market; a sale comes only from
/// in the market with the fast mean below the slow one, asks for all the
/// shares and leaves the strategy out. Where the means are equal there is
/// no signal and the account is as before.
pub proof fn one_signal_per_crossing(m: CrossoverModel, market: Map<Seq<char>, Bar>)
    ensures
        ({
            let (after, signals) = crossover_tick(m, market);
            let fast = trailing_mean_of(after.prices, m.fast_window);
            let slow = trailing_mean_of(after.prices, m.slow_window);
            &&& after.symbol == m.symbol
            &&& after.fast_window == m.fast_window
            &&& after.slow_window == m.slow_window
            &&& signals.len() <= 1
            &&& signals.len() == 0 ==> after.account == m.account
            &&& signals.len() == 1 ==> match signals[0] {
                Signal::Buy(symbol, dollars) => {
                    &&& symbol == m.symbol
                    &&& m.account == CrossoverTraderAccount::Currency(dollars)
                    &&& after.account == CrossoverTraderAccount::Stock(0)
                    &&& after.prices.len() >= m.slow_window
                    &&& fast > slow
                },
                Signal::Sell(symbol, qty) => {
                    &&& symbol == m.symbol
                    &&& m.account == CrossoverTraderAccount::Stock(qty)
                    &&& after.account == CrossoverTraderAccount::Currency(0)
                    &&& after.prices.len() >= m.slow_window
                    &&& fast < slow
                },
            }
            &&& fast == slow ==> signals.len() == 0
        }),
{
}

/// Between a purchase and the next sale the strategy buys no more, and
/// between a sale and the next purchase it sells no more: a notice of a
/// fill keeps the strategy in or out of the market as it was, and a tick
/// in the market gives no purchase, a tick out of it no sale.
pub proof fn no_repeat_without_crossing(
    m: CrossoverModel,
    market: Map<Seq<char>, Bar>,
    symbol: Seq<char>,
    amount: u64,
)
    ensures
        (m.account is Stock) == (CrossoverTrader::after_dollars(m, amount).account is Stock),
        (m.account is Stock) == (CrossoverTrader::after_stock(m, symbol, amount).account is Stock),
        m.account is Stock ==> forall|i: int|
            0 <= i < crossover_tick(m, market).1.len() ==> crossover_tick(m, market).1[i] is Sell,
        m.account is Currency ==> forall|i: int|
            0 <= i < crossover_tick(m, market).1.len() ==> crossover_tick(m, market).1[i] is Buy,
{
}

} // verus!

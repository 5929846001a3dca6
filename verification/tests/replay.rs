use backtester::error::BacktestError;
use backtester::ledger::Ledger;
use backtester::market::{Bar, MarketInfo};
use backtester::runner::{apply_signal, apply_signals, run_backtest};
use backtester::trader::{CrossoverTrader, CrossoverTraderAccount, StockSignal, Trader};
use backtester::MONEY_SCALING_FACTOR;

fn aapl() -> String {
    String::from("AAPL")
}

fn bar(symbol: &str, close: u64, timestamp: u64) -> Bar {
    Bar {
        symbol: String::from(symbol),
        open: close,
        close,
        high: close,
        low: close,
        volume: 1,
        timestamp,
    }
}

fn daily(closes: &[u64]) -> Vec<Bar> {
    let mut bars = Vec::new();
    for (day, close) in closes.iter().enumerate() {
        bars.push(bar("AAPL", *close, day as u64 + 1));
    }
    bars
}

fn trader(fast: usize, slow: usize) -> CrossoverTrader {
    match CrossoverTrader::with_windows(aapl(), fast, slow) {
        Ok(trader) => trader,
        Err(_) => panic!("the windows are in order"),
    }
}

fn flat_then_ramp() -> Vec<u64> {
    let mut closes = vec![100; 200];
    for close in 101..=130 {
        closes.push(close);
    }
    closes
}

#[test]
fn scaling_factor_is_ten_thousand() {
    assert_eq!(MONEY_SCALING_FACTOR, 10000);
}

#[test]
fn a_run_on_no_bars_halts_at_once() {
    let mut tested = trader(1, 2);
    match run_backtest(&Vec::new(), 1000, &mut tested) {
        Ok(_) => panic!("a run on nothing has no value"),
        Err(halt) => {
            assert_eq!(halt.cause, BacktestError::EmptyBarStore);
            assert!(halt.signal.is_none());
            assert_eq!(halt.timestamp, 0);
            assert_eq!(halt.ledger.cash(), 1000);
            assert!(halt.ledger.entries().is_empty());
        }
    }
    assert_eq!(tested.account, CrossoverTraderAccount::Currency(0));
}

#[test]
fn bars_of_one_timestamp_never_reach_the_strategy() {
    let mut tested = trader(1, 2);
    let bars = vec![bar("AAPL", 10, 7), bar("MSFT", 20, 7), bar("AAPL", 30, 7)];
    match run_backtest(&bars, 1000, &mut tested) {
        Ok(value) => assert_eq!(value, 1000),
        Err(_) => panic!("nothing was traded"),
    }
    assert!(tested.prices.is_empty());
    assert_eq!(tested.account, CrossoverTraderAccount::Currency(1000));
}

#[test]
fn the_strategy_decides_on_the_bars_before_the_new_timestamp() {
    let mut tested = trader(1, 2);
    let bars = vec![
        bar("AAPL", 10, 1),
        bar("AAPL", 11, 1),
        bar("AAPL", 20, 2),
        bar("AAPL", 21, 2),
        bar("AAPL", 30, 3),
    ];
    match run_backtest(&bars, 1000, &mut tested) {
        // the tick at timestamp 3 sees 11 and 21 and buys at the close 30
        Ok(value) => assert_eq!(value, 33 * 30),
        Err(_) => panic!("the purchase can be paid"),
    }
    assert_eq!(tested.prices, vec![11, 21]);
    assert_eq!(tested.account, CrossoverTraderAccount::Stock(33));
}

#[test]
fn one_purchase_on_a_ramp_after_a_flat_stretch() {
    let funds = 1000 * MONEY_SCALING_FACTOR;
    let bars = daily(&flat_then_ramp());
    let mut tested = trader(50, 200);
    match run_backtest(&bars, funds, &mut tested) {
        Ok(value) => assert_eq!(value, (funds / 111) * 130),
        Err(_) => panic!("the purchase can be paid"),
    }
    assert_eq!(tested.account, CrossoverTraderAccount::Stock(funds / 111));
    assert_eq!(tested.prices.len(), 229);
}

#[test]
fn the_purchase_on_the_ramp_comes_at_the_first_crossing_and_takes_all_cash() {
    let funds = 1000 * MONEY_SCALING_FACTOR;
    let bars = daily(&flat_then_ramp());
    let mut tested = trader(50, 200);
    tested.give_dollars(funds);
    let mut ledger = Ledger::new(funds);
    let mut market = MarketInfo::new();
    market.observe(&bars[0]);
    let mut purchases = Vec::new();
    for place in 1..bars.len() {
        let signals = tested.new_tick(&market);
        market.observe(&bars[place]);
        for signal in &signals {
            match signal {
                StockSignal::Buy(symbol, dollars) => {
                    assert_eq!(symbol, "AAPL");
                    assert_eq!(*dollars, funds);
                    purchases.push(place);
                }
                StockSignal::Sell(_, _) => panic!("a sale on a ramp"),
            }
        }
        let before = ledger.cash();
        assert_eq!(apply_signals(&mut ledger, &mut tested, &signals, bars[place].close), Ok(()));
        if signals.is_empty() {
            assert_eq!(ledger.cash(), before);
        } else {
            assert_eq!(ledger.cash(), 0);
            assert_eq!(ledger.holding(&aapl()), funds / 111);
            assert!(ledger.holding(&aapl()) > 0);
        }
    }
    // history 100 x 200 and 101..=110: the last 50 have the mean 101, the last 200 the mean 100
    assert_eq!(purchases, vec![210]);
    assert_eq!(ledger.total_value(&market), Ok((funds / 111) * 130));
}

#[test]
fn a_rise_and_a_fall_buy_and_sell() {
    let mut tested = trader(1, 2);
    let bars = daily(&[10, 20, 25, 30, 20, 10, 10]);
    // ticks see 10, 20 (buy at 25), 25, 30, 20 (sell at 10), 10
    match run_backtest(&bars, 1000, &mut tested) {
        Ok(value) => assert_eq!(value, 400),
        Err(_) => panic!("every fill can be made"),
    }
    assert_eq!(tested.account, CrossoverTraderAccount::Currency(400));
}

#[test]
fn a_purchase_beyond_the_cash_halts_the_run() {
    let mut tested = trader(1, 2);
    tested.give_dollars(500);
    let bars = daily(&[10, 20, 25, 30]);
    match run_backtest(&bars, 1000, &mut tested) {
        Ok(_) => panic!("the strategy asked for more than there was"),
        Err(halt) => {
            assert_eq!(halt.cause, BacktestError::InsufficientFunds);
            match halt.signal {
                Some(StockSignal::Buy(symbol, dollars)) => {
                    assert_eq!(symbol, "AAPL");
                    assert_eq!(dollars, 1500);
                }
                _ => panic!("the halt names the purchase"),
            }
            assert_eq!(halt.timestamp, 3);
            assert_eq!(halt.ledger.cash(), 1000);
            assert_eq!(halt.ledger.holding(&aapl()), 0);
            assert_eq!(halt.ledger.entries(), vec![(aapl(), 0)]);
        }
    }
}

#[test]
fn a_sale_beyond_the_holdings_halts_the_run() {
    let mut tested = trader(1, 2);
    tested.account = CrossoverTraderAccount::Stock(5);
    let bars = daily(&[30, 20, 10]);
    match run_backtest(&bars, 1000, &mut tested) {
        Ok(_) => panic!("the strategy sold what was not held"),
        Err(halt) => {
            assert_eq!(halt.cause, BacktestError::InsufficientHoldings);
            match halt.signal {
                Some(StockSignal::Sell(symbol, qty)) => {
                    assert_eq!(symbol, "AAPL");
                    assert_eq!(qty, 5);
                }
                _ => panic!("the halt names the sale"),
            }
            assert_eq!(halt.timestamp, 3);
            assert_eq!(halt.ledger.cash(), 1000);
        }
    }
}

#[test]
fn a_purchase_at_price_zero_halts_the_run() {
    let mut tested = trader(1, 2);
    let bars = daily(&[10, 20, 0]);
    match run_backtest(&bars, 1000, &mut tested) {
        Ok(_) => panic!("nothing can be bought at price zero"),
        Err(halt) => {
            assert_eq!(halt.cause, BacktestError::Overflow);
            assert_eq!(halt.timestamp, 3);
            assert_eq!(halt.ledger.cash(), 1000);
        }
    }
}

#[test]
fn signals_are_filled_in_order_up_to_the_first_refusal() {
    let mut tested = trader(1, 2);
    tested.account = CrossoverTraderAccount::Stock(0);
    let mut ledger = Ledger::new(100);
    let signals = vec![
        StockSignal::Buy(aapl(), 60),
        StockSignal::Sell(aapl(), 2),
        StockSignal::Buy(aapl(), 80),
        StockSignal::Buy(aapl(), 1),
    ];
    let done = apply_signals(&mut ledger, &mut tested, &signals, 10);
    assert_eq!(done, Err((2, BacktestError::InsufficientFunds)));
    assert_eq!(ledger.cash(), 100 - 60 + 20);
    assert_eq!(ledger.holding(&aapl()), 4);
    assert_eq!(tested.account, CrossoverTraderAccount::Stock(6));
}

#[test]
fn a_fill_tells_the_strategy_what_came_in() {
    let mut tested = trader(1, 2);
    tested.give_dollars(95);
    let mut ledger = Ledger::new(95);
    assert_eq!(apply_signal(&mut ledger, &StockSignal::Buy(aapl(), 95), 10), Ok(9));
    tested.account = CrossoverTraderAccount::Currency(0);
    let sale = vec![StockSignal::Sell(aapl(), 9)];
    assert_eq!(apply_signals(&mut ledger, &mut tested, &sale, 11), Ok(()));
    assert_eq!(tested.account, CrossoverTraderAccount::Currency(99));
    assert_eq!(ledger.cash(), 99);
}

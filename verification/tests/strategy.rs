use backtester::error::BacktestError;
use backtester::market::{Bar, MarketInfo};
use backtester::trader::{
    trailing_mean, CrossoverTrader, CrossoverTraderAccount, StockSignal, Trader,
};

fn aapl() -> String {
    String::from("AAPL")
}

fn market_at(close: u64) -> MarketInfo {
    let mut market = MarketInfo::new();
    market.observe(&Bar {
        symbol: aapl(),
        open: close,
        close,
        high: close,
        low: close,
        volume: 1,
        timestamp: 0,
    });
    market
}

fn trader(fast: usize, slow: usize) -> CrossoverTrader {
    match CrossoverTrader::with_windows(aapl(), fast, slow) {
        Ok(trader) => trader,
        Err(_) => panic!("the windows are in order"),
    }
}

#[test]
fn default_trader_watches_aapl_over_150_and_200() {
    let made = CrossoverTrader::new();
    assert_eq!(made.symbol, "AAPL");
    assert_eq!(made.fast_window, 150);
    assert_eq!(made.slow_window, 200);
    assert!(made.prices.is_empty());
    assert_eq!(made.account, CrossoverTraderAccount::Currency(0));
    assert_eq!(made.listens_to(), vec![aapl()]);
}

#[test]
fn windows_must_be_positive_and_differ() {
    assert!(CrossoverTrader::with_windows(aapl(), 1, 2).is_ok());
    for (fast, slow) in [(0, 5), (5, 5), (6, 5), (0, 0), (200, 150)] {
        match CrossoverTrader::with_windows(aapl(), fast, slow) {
            Err(cause) => assert_eq!(cause, BacktestError::InvalidStrategyConfiguration),
            Ok(_) => panic!("windows {} and {} were accepted", fast, slow),
        }
    }
}

#[test]
fn trailing_mean_rounds_down() {
    let prices = vec![10, 20, 31, 40];
    assert_eq!(trailing_mean(&prices, 1), 40);
    assert_eq!(trailing_mean(&prices, 2), 35);
    assert_eq!(trailing_mean(&prices, 3), 30);
    assert_eq!(trailing_mean(&prices, 4), 25);
}

#[test]
fn trailing_mean_of_large_prices_fits() {
    let prices = vec![u64::MAX, u64::MAX, u64::MAX - 3];
    assert_eq!(trailing_mean(&prices, 3), u64::MAX - 1);
}

#[test]
fn no_signal_before_the_slow_window_is_full() {
    let mut tested = trader(1, 3);
    tested.give_dollars(1000);
    assert!(tested.new_tick(&market_at(10)).is_empty());
    assert!(tested.new_tick(&market_at(20)).is_empty());
    assert_eq!(tested.prices, vec![10, 20]);
    assert_eq!(tested.account, CrossoverTraderAccount::Currency(1000));
    let signals = tested.new_tick(&market_at(30));
    assert_eq!(signals.len(), 1);
}

#[test]
fn no_price_no_tick() {
    let mut tested = trader(1, 2);
    let signals = tested.new_tick(&MarketInfo::new());
    assert!(signals.is_empty());
    assert!(tested.prices.is_empty());
}

#[test]
fn buys_with_all_cash_when_fast_is_above_slow() {
    let mut tested = trader(1, 2);
    tested.give_dollars(700);
    assert!(tested.new_tick(&market_at(10)).is_empty());
    let signals = tested.new_tick(&market_at(20));
    assert_eq!(signals.len(), 1);
    match &signals[0] {
        StockSignal::Buy(symbol, dollars) => {
            assert_eq!(symbol, "AAPL");
            assert_eq!(*dollars, 700);
        }
        StockSignal::Sell(_, _) => panic!("a sale while out of the market"),
    }
    assert_eq!(tested.account, CrossoverTraderAccount::Stock(0));
    tested.give_stock(aapl(), 35);
    assert_eq!(tested.account, CrossoverTraderAccount::Stock(35));
}

#[test]
fn buys_once_per_crossing_and_sells_once() {
    let mut tested = trader(1, 2);
    tested.give_dollars(700);
    assert!(tested.new_tick(&market_at(10)).is_empty());
    assert_eq!(tested.new_tick(&market_at(20)).len(), 1);
    tested.give_stock(aapl(), 35);
    assert!(tested.new_tick(&market_at(30)).is_empty());
    assert!(tested.new_tick(&market_at(40)).is_empty());
    let signals = tested.new_tick(&market_at(30));
    assert_eq!(signals.len(), 1);
    match &signals[0] {
        StockSignal::Sell(symbol, qty) => {
            assert_eq!(symbol, "AAPL");
            assert_eq!(*qty, 35);
        }
        StockSignal::Buy(_, _) => panic!("a purchase while in the market"),
    }
    assert_eq!(tested.account, CrossoverTraderAccount::Currency(0));
    tested.give_dollars(1050);
    assert_eq!(tested.account, CrossoverTraderAccount::Currency(1050));
    assert!(tested.new_tick(&market_at(20)).is_empty());
}

#[test]
fn a_tie_gives_no_signal_and_keeps_the_account() {
    let mut flat = trader(1, 2);
    flat.give_dollars(700);
    assert!(flat.new_tick(&market_at(10)).is_empty());
    assert!(flat.new_tick(&market_at(10)).is_empty());
    assert_eq!(flat.account, CrossoverTraderAccount::Currency(700));
    let mut long = trader(1, 2);
    long.give_dollars(700);
    assert!(long.new_tick(&market_at(10)).is_empty());
    assert_eq!(long.new_tick(&market_at(20)).len(), 1);
    long.give_stock(aapl(), 35);
    assert!(long.new_tick(&market_at(20)).is_empty());
    assert_eq!(long.account, CrossoverTraderAccount::Stock(35));
}

#[test]
fn the_two_means_are_taken_over_different_windows() {
    // closes 10, 10, 10, 13: the last two have the mean 11, all four 10
    let mut tested = trader(2, 4);
    tested.give_dollars(50);
    for close in [10, 10, 10] {
        assert!(tested.new_tick(&market_at(close)).is_empty());
    }
    assert_eq!(tested.new_tick(&market_at(13)).len(), 1);
}

#[test]
fn notices_that_do_not_fit_the_account_change_nothing() {
    let mut tested = trader(1, 2);
    tested.give_stock(aapl(), 5);
    assert_eq!(tested.account, CrossoverTraderAccount::Currency(0));
    tested.account = CrossoverTraderAccount::Stock(4);
    tested.give_dollars(5);
    assert_eq!(tested.account, CrossoverTraderAccount::Stock(4));
    tested.give_stock(String::from("MSFT"), 5);
    assert_eq!(tested.account, CrossoverTraderAccount::Stock(4));
    tested.give_stock(aapl(), u64::MAX);
    assert_eq!(tested.account, CrossoverTraderAccount::Stock(u64::MAX));
}

#[test]
fn cash_notice_stops_at_the_largest_amount() {
    let mut tested = trader(1, 2);
    tested.give_dollars(u64::MAX);
    tested.give_dollars(1);
    assert_eq!(tested.account, CrossoverTraderAccount::Currency(u64::MAX));
}

#[test]
fn money_sum_is_cash_or_shares_at_the_last_price() {
    let mut tested = trader(1, 2);
    tested.give_dollars(700);
    assert_eq!(tested.money_sum(), Some(700));
    tested.account = CrossoverTraderAccount::Stock(3);
    assert_eq!(tested.money_sum(), None);
    tested.prices = vec![10, 25];
    assert_eq!(tested.money_sum(), Some(75));
    tested.account = CrossoverTraderAccount::Stock(u64::MAX);
    assert_eq!(tested.money_sum(), None);
}

#[test]
fn init_empties_the_history_only() {
    let mut tested = trader(1, 2);
    tested.give_dollars(700);
    assert!(tested.new_tick(&market_at(10)).is_empty());
    tested.init();
    assert!(tested.prices.is_empty());
    assert_eq!(tested.account, CrossoverTraderAccount::Currency(700));
    assert_eq!((tested.fast_window, tested.slow_window), (1, 2));
    CrossoverTrader::day_end();
}

#[test]
fn duplicate_signal_has_the_same_symbol_and_amount() {
    match StockSignal::Buy(aapl(), 9).duplicate() {
        StockSignal::Buy(symbol, dollars) => assert_eq!((symbol, dollars), (aapl(), 9)),
        StockSignal::Sell(_, _) => panic!("a purchase became a sale"),
    }
    match StockSignal::Sell(aapl(), 4).duplicate() {
        StockSignal::Sell(symbol, qty) => assert_eq!((symbol, qty), (aapl(), 4)),
        StockSignal::Buy(_, _) => panic!("a sale became a purchase"),
    }
}

#[test]
fn means_that_round_down_to_the_same_amount_tie() {
    // the last two of 10, 10, 10, 11 sum to 21, all four to 41: both means are 10
    let mut tested = trader(2, 4);
    tested.give_dollars(50);
    for close in [10, 10, 10, 11] {
        assert!(tested.new_tick(&market_at(close)).is_empty());
    }
    assert_eq!(tested.account, CrossoverTraderAccount::Currency(50));
    // 10, 10, 11, 12: the last two sum to 23, all four to 43
    assert_eq!(tested.new_tick(&market_at(12)).len(), 1);
}

//! The ledger: cash and shares, neither of which ever goes below zero.

use crate::error::BacktestError;
use crate::market::{known_price, Bar, MarketInfo};
use vstd::prelude::*;

verus! {

/// The shares held of one symbol.
#[derive(Debug)]
pub struct Holding {
    pub symbol: String,
    pub quantity: u64,
}

/// Cash and per-symbol share balances.
///
/// Every operation checks before it changes anything: one that is refused
/// leaves the ledger exactly as it was.
#[derive(Debug)]
pub struct Ledger {
    cash: u64,
    holdings: Vec<Holding>,
}

/// A ledger as a value: its cash, and its holdings in the order in which
/// their symbols first came.
pub struct LedgerView {
    pub cash: u64,
    pub entries: Seq<(Seq<char>, u64)>,
}

/// No symbol has two entries.
pub open spec fn distinct(entries: Seq<(Seq<char>, u64)>) -> bool {
    forall|i: int, j: int| 0 <= i < j < entries.len() ==> entries[i].0 != entries[j].0
}

/// `i` is the place of an entry for `symbol`.
pub open spec fn is_slot(entries: Seq<(Seq<char>, u64)>, symbol: Seq<char>, i: int) -> bool {
    0 <= i < entries.len() && entries[i].0 == symbol
}

/// Where the entry of `symbol` stands, if it has one.
pub open spec fn slot(entries: Seq<(Seq<char>, u64)>, symbol: Seq<char>) -> Option<int> {
    if exists|i: int| is_slot(entries, symbol, i) {
        Some(choose|i: int| is_slot(entries, symbol, i))
    } else {
        None
    }
}

/// The quantity held of `symbol`: zero where it has no entry.
pub open spec fn held(entries: Seq<(Seq<char>, u64)>, symbol: Seq<char>) -> u64 {
    match slot(entries, symbol) {
        Some(i) => entries[i].1,
        None => 0,
    }
}

/// The entries after `qty` shares of `symbol` came in.
pub open spec fn credited(entries: Seq<(Seq<char>, u64)>, symbol: Seq<char>, qty: u64) -> Seq<
    (Seq<char>, u64),
> {
    match slot(entries, symbol) {
        Some(i) => entries.update(i, (symbol, (entries[i].1 + qty) as u64)),
        None => entries.push((symbol, qty)),
    }
}

/// The entries after `qty` shares of `symbol` left.
pub open spec fn debited(entries: Seq<(Seq<char>, u64)>, symbol: Seq<char>, qty: u64) -> Seq<
    (Seq<char>, u64),
> {
    match slot(entries, symbol) {
        Some(i) => entries.update(i, (symbol, (entries[i].1 - qty) as u64)),
        None => entries,
    }
}

/// What one entry is worth at the last known prices: nothing where the
/// symbol has no price.
pub open spec fn entry_worth(entry: (Seq<char>, u64), bars: Map<Seq<char>, Bar>) -> int {
    match known_price(bars, entry.0) {
        Some(price) => entry.1 * price,
        None => 0,
    }
}

/// The sum of what the entries are worth.
pub open spec fn worth(entries: Seq<(Seq<char>, u64)>, bars: Map<Seq<char>, Bar>) -> int
    decreases entries.len(),
{
    if entries.len() == 0 {
        0
    } else {
        worth(entries.drop_last(), bars) + entry_worth(entries.last(), bars)
    }
}

/// Some shares are held of a symbol that has no price.
pub open spec fn unpriced(entries: Seq<(Seq<char>, u64)>, bars: Map<Seq<char>, Bar>) -> bool {
    exists|i: int|
        0 <= i < entries.len() && (#[trigger] entries[i]).1 > 0 && !bars.contains_key(entries[i].0)
}

/// The value of a ledger at the last known prices: cash plus the worth of
/// the holdings, an error where a held symbol has no price or the sum does
/// not fit.
pub open spec fn valuation(ledger: LedgerView, bars: Map<Seq<char>, Bar>) -> Result<
    u64,
    BacktestError,
> {
    if unpriced(ledger.entries, bars) {
        Err(BacktestError::UnknownSymbolPrice)
    } else if ledger.cash + worth(ledger.entries, bars) > u64::MAX {
        Err(BacktestError::Overflow)
    } else {
        Ok((ledger.cash + worth(ledger.entries, bars)) as u64)
    }
}

/// Among distinct entries a symbol stands in one place only.
pub proof fn slot_is_unique(entries: Seq<(Seq<char>, u64)>, symbol: Seq<char>, i: int)
    requires
        distinct(entries),
        is_slot(entries, symbol, i),
    ensures
        slot(entries, symbol) == Some(i),
        held(entries, symbol) == entries[i].1,
{
    let j = choose|j: int| is_slot(entries, symbol, j);
    if j < i {
        assert(entries[j].0 != entries[i].0);
    } else if i < j {
        assert(entries[i].0 != entries[j].0);
    }
}

/// A credit adds to the holding of its symbol and to no other, and keeps
/// the entries distinct.
pub proof fn held_after_credit(
    entries: Seq<(Seq<char>, u64)>,
    symbol: Seq<char>,
    qty: u64,
    other: Seq<char>,
)
    requires
        distinct(entries),
        held(entries, symbol) + qty <= u64::MAX,
    ensures
        distinct(credited(entries, symbol, qty)),
        held(credited(entries, symbol, qty), symbol) == held(entries, symbol) + qty,
        other != symbol ==> held(credited(entries, symbol, qty), other) == held(entries, other),
{
    let after = credited(entries, symbol, qty);
    match slot(entries, symbol) {
        Some(i) => {
            assert(is_slot(entries, symbol, i));
            assert(forall|k: int| 0 <= k < entries.len() ==> after[k].0 == entries[k].0);
            assert(is_slot(after, symbol, i));
            slot_is_unique(after, symbol, i);
            if other != symbol {
                if exists|k: int| is_slot(entries, other, k) {
                    let k = choose|k: int| is_slot(entries, other, k);
                    assert(is_slot(after, other, k));
                    slot_is_unique(after, other, k);
                } else {
                    assert(forall|k: int| is_slot(after, other, k) ==> is_slot(entries, other, k));
                }
            }
        },
        None => {
            let n = entries.len() as int;
            assert(forall|k: int| 0 <= k < n ==> !is_slot(entries, symbol, k));
            assert(forall|k: int| 0 <= k < n ==> after[k] == entries[k]);
            assert forall|a: int, b: int| 0 <= a < b < after.len() implies after[a].0
                != after[b].0 by {
                if b == n {
                    assert(!is_slot(entries, symbol, a));
                } else {
                    assert(entries[a].0 != entries[b].0);
                }
            }
            assert(is_slot(after, symbol, n));
            slot_is_unique(after, symbol, n);
            if other != symbol {
                if exists|k: int| is_slot(entries, other, k) {
                    let k = choose|k: int| is_slot(entries, other, k);
                    assert(is_slot(after, other, k));
                    slot_is_unique(after, other, k);
                } else {
                    assert(forall|k: int| is_slot(after, other, k) ==> is_slot(entries, other, k));
                }
            }
        },
    }
}

/// A debit takes from the holding of its symbol and from no other, and
/// keeps the entries distinct.
pub proof fn held_after_debit(
    entries: Seq<(Seq<char>, u64)>,
    symbol: Seq<char>,
    qty: u64,
    other: Seq<char>,
)
    requires
        distinct(entries),
        qty <= held(entries, symbol),
    ensures
        distinct(debited(entries, symbol, qty)),
        held(debited(entries, symbol, qty), symbol) == held(entries, symbol) - qty,
        other != symbol ==> held(debited(entries, symbol, qty), other) == held(entries, other),
{
    let after = debited(entries, symbol, qty);
    match slot(entries, symbol) {
        Some(i) => {
            assert(is_slot(entries, symbol, i));
            assert(forall|k: int| 0 <= k < entries.len() ==> after[k].0 == entries[k].0);
            assert(is_slot(after, symbol, i));
            slot_is_unique(after, symbol, i);
            if other != symbol {
                if exists|k: int| is_slot(entries, other, k) {
                    let k = choose|k: int| is_slot(entries, other, k);
                    assert(is_slot(after, other, k));
                    slot_is_unique(after, other, k);
                } else {
                    assert(forall|k: int| is_slot(after, other, k) ==> is_slot(entries, other, k));
                }
            }
        },
        None => {},
    }
}

/// Every entry holds no shares.
pub open spec fn all_empty(entries: Seq<(Seq<char>, u64)>) -> bool {
    forall|i: int| 0 <= i < entries.len() ==> (#[trigger] entries[i]).1 == 0
}

/// A ledger without shares is worth its cash, whatever the prices.
pub proof fn empty_holdings_are_worth_nothing(ledger: LedgerView, bars: Map<Seq<char>, Bar>)
    requires
        all_empty(ledger.entries),
    ensures
        worth(ledger.entries, bars) == 0,
        valuation(ledger, bars) == Ok::<u64, BacktestError>(ledger.cash),
    decreases ledger.entries.len(),
{
    if ledger.entries.len() > 0 {
        let rest = LedgerView { cash: ledger.cash, entries: ledger.entries.drop_last() };
        assert forall|i: int| 0 <= i < rest.entries.len() implies (#[trigger] rest.entries[i]).1
            == 0 by {
            assert(rest.entries[i] == ledger.entries[i]);
        }
        empty_holdings_are_worth_nothing(rest, bars);
        assert(ledger.entries.last() == ledger.entries[ledger.entries.len() - 1]);
    }
}

/// A credit of no shares to a ledger without shares leaves it without shares.
pub proof fn empty_credit_keeps_empty(entries: Seq<(Seq<char>, u64)>, symbol: Seq<char>)
    requires
        all_empty(entries),
    ensures
        all_empty(credited(entries, symbol, 0)),
{
    let after = credited(entries, symbol, 0);
    match slot(entries, symbol) {
        Some(i) => {
            assert(is_slot(entries, symbol, i));
            assert forall|k: int| 0 <= k < after.len() implies (#[trigger] after[k]).1 == 0 by {
                assert(entries[k].1 == 0);
            }
        },
        None => {
            assert forall|k: int| 0 <= k < after.len() implies (#[trigger] after[k]).1 == 0 by {
                if k < entries.len() {
                    assert(entries[k].1 == 0);
                }
            }
        },
    }
}

impl View for Ledger {
    type V = LedgerView;

    closed spec fn view(&self) -> LedgerView {
        LedgerView {
            cash: self.cash,
            entries: Seq::new(
                self.holdings@.len(),
                |i: int| (self.holdings@[i].symbol@, self.holdings@[i].quantity),
            ),
        }
    }
}

impl Ledger {
    /// The ledger's invariant: no symbol has two entries.
    pub open spec fn wf(&self) -> bool {
        distinct(self@.entries)
    }

    /// A ledger with `cash` and no shares.
    pub fn new(cash: u64) -> (ledger: Ledger)
        ensures
            ledger.wf(),
            ledger@.cash == cash,
            ledger@.entries == Seq::<(Seq<char>, u64)>::empty(),
    {
        let ledger = Ledger { cash, holdings: Vec::new() };
        assert(ledger@.entries =~= Seq::<(Seq<char>, u64)>::empty());
        ledger
    }

    /// The cash at hand.
    pub fn cash(&self) -> (cash: u64)
        ensures
            cash == self@.cash,
    {
        self.cash
    }

    /// The holdings, in the order in which their symbols first came.
    pub fn entries(&self) -> (list: Vec<(String, u64)>)
        ensures
            list@.len() == self@.entries.len(),
            forall|i: int|
                0 <= i < list@.len() ==> (list@[i].0@, list@[i].1) == #[trigger] self@.entries[i],
    {
        let mut list: Vec<(String, u64)> = Vec::new();
        let mut i: usize = 0;
        while i < self.holdings.len()
            invariant
                i <= self.holdings@.len(),
                list@.len() == i,
                forall|k: int|
                    0 <= k < i ==> (list@[k].0@, list@[k].1) == #[trigger] self@.entries[k],
            decreases self.holdings@.len() - i,
        {
            let entry = &self.holdings[i];
            list.push((entry.symbol.clone(), entry.quantity));
            i += 1;
        }
        list
    }

    /// Where the entry of `symbol` stands, if it has one.
    fn find(&self, symbol: &String) -> (place: Option<usize>)
        requires
            self.wf(),
        ensures
            match place {
                Some(i) => slot(self@.entries, symbol@) == Some(i as int) && i
                    < self.holdings@.len(),
                None => slot(self@.entries, symbol@).is_none(),
            },
    {
        let mut i: usize = 0;
        while i < self.holdings.len()
            invariant
                self.wf(),
                i <= self.holdings@.len(),
                forall|k: int| 0 <= k < i ==> !is_slot(self@.entries, symbol@, k),
            decreases self.holdings@.len() - i,
        {
            if self.holdings[i].symbol == *symbol {
                proof {
                    slot_is_unique(self@.entries, symbol@, i as int);
                }
                return Some(i);
            }
            i += 1;
        }
        None
    }

    /// The quantity held of `symbol`: zero for a symbol never credited.
    pub fn holding(&self, symbol: &String) -> (qty: u64)
        requires
            self.wf(),
        ensures
            qty == held(self@.entries, symbol@),
    {
        match self.find(symbol) {
            Some(i) => self.holdings[i].quantity,
            None => 0,
        }
    }

    /// Adds `amount` to the cash. Refused only where the sum does not fit.
    pub fn credit_cash(&mut self, amount: u64) -> (done: Result<(), BacktestError>)
        requires
            old(self).wf(),
        ensures
            final(self).wf(),
            final(self)@.entries == old(self)@.entries,
            old(self)@.cash + amount <= u64::MAX ==> done.is_ok() && final(self)@.cash == old(self)@.cash + amount,
            old(self)@.cash + amount > u64::MAX ==> done == Err::<(), BacktestError>(
                BacktestError::Overflow,
            ) && final(self)@ == old(self)@,
    {
        match self.cash.checked_add(amount) {
            Some(sum) => {
                self.cash = sum;
                Ok(())
            },
            None => Err(BacktestError::Overflow),
        }
    }

    /// Takes `amount` from the cash. Refused where the cash is less.
    pub fn debit_cash(&mut self, amount: u64) -> (done: Result<(), BacktestError>)
        requires
            old(self).wf(),
        ensures
            final(self).wf(),
            final(self)@.entries == old(self)@.entries,
            amount <= old(self)@.cash ==> done.is_ok() && final(self)@.cash == old(self)@.cash
                - amount,
            amount > old(self)@.cash ==> done == Err::<(), BacktestError>(
                BacktestError::InsufficientFunds,
            ) && final(self)@ == old(self)@,
    {
        if self.cash < amount {
            return Err(BacktestError::InsufficientFunds);
        }
        self.cash = self.cash - amount;
        Ok(())
    }

    /// Adds `qty` shares of `symbol`, which gets an entry if it had none.
    /// Refused only where the sum does not fit.
    pub fn credit_holding(&mut self, symbol: &String, qty: u64) -> (done: Result<
        (),
        BacktestError,
    >)
        requires
            old(self).wf(),
        ensures
            final(self).wf(),
            final(self)@.cash == old(self)@.cash,
            held(old(self)@.entries, symbol@) + qty <= u64::MAX ==> done.is_ok() && final(self)@.entries == credited(old(self)@.entries, symbol@, qty),
            held(old(self)@.entries, symbol@) + qty > u64::MAX ==> done == Err::<
                (),
                BacktestError,
            >(BacktestError::Overflow) && final(self)@ == old(self)@,
    {
        match self.find(symbol) {
            Some(i) => {
                match self.holdings[i].quantity.checked_add(qty) {
                    Some(sum) => {
                        self.holdings.set(i, Holding { symbol: symbol.clone(), quantity: sum });
                        proof {
                            assert(final(self)@.entries =~= credited(
                                old(self)@.entries,
                                symbol@,
                                qty,
                            ));
                            held_after_credit(old(self)@.entries, symbol@, qty, symbol@);
                        }
                        Ok(())
                    },
                    None => Err(BacktestError::Overflow),
                }
            },
            None => {
                self.holdings.push(Holding { symbol: symbol.clone(), quantity: qty });
                proof {
                    assert(final(self)@.entries =~= credited(old(self)@.entries, symbol@, qty));
                    held_after_credit(old(self)@.entries, symbol@, qty, symbol@);
                }
                Ok(())
            },
        }
    }

    /// Takes `qty` shares of `symbol`. Refused where fewer are held.
    pub fn debit_holding(&mut self, symbol: &String, qty: u64) -> (done: Result<
        (),
        BacktestError,
    >)
        requires
            old(self).wf(),
        ensures
            final(self).wf(),
            final(self)@.cash == old(self)@.cash,
            qty <= held(old(self)@.entries, symbol@) ==> done.is_ok() && final(self)@.entries
                == debited(old(self)@.entries, symbol@, qty),
            qty > held(old(self)@.entries, symbol@) ==> done == Err::<(), BacktestError>(
                BacktestError::InsufficientHoldings,
            ) && final(self)@ == old(self)@,
    {
        match self.find(symbol) {
            Some(i) => {
                let have = self.holdings[i].quantity;
                if have < qty {
                    return Err(BacktestError::InsufficientHoldings);
                }
                self.holdings.set(i, Holding { symbol: symbol.clone(), quantity: have - qty });
                proof {
                    assert(final(self)@.entries =~= debited(old(self)@.entries, symbol@, qty));
                    held_after_debit(old(self)@.entries, symbol@, qty, symbol@);
                }
                Ok(())
            },
            None => {
                if qty > 0 {
                    return Err(BacktestError::InsufficientHoldings);
                }
                Ok(())
            },
        }
    }

    /// Cash plus, for each holding, its quantity times the last close of
    /// its symbol. A symbol without a price is an error if any of it is
    /// held, and counts nothing if none is.
    pub fn total_value(&self, market: &MarketInfo) -> (value: Result<u64, BacktestError>)
        requires
            self.wf(),
        ensures
            value == valuation(self@, market@),
    {
        let mut total: u64 = self.cash;
        let mut fits = true;
        let mut i: usize = 0;
        while i < self.holdings.len()
            invariant
                i <= self.holdings@.len(),
                !unpriced(self@.entries.take(i as int), market@),
                worth(self@.entries.take(i as int), market@) >= 0,
                fits ==> total == self@.cash + worth(self@.entries.take(i as int), market@),
                !fits ==> self@.cash + worth(self@.entries.take(i as int), market@) > u64::MAX,
            decreases self.holdings@.len() - i,
        {
            let entry = &self.holdings[i];
            let ghost before = self@.entries.take(i as int);
            let ghost after = self@.entries.take(i + 1);
            proof {
                assert(after.drop_last() =~= before);
                assert(after.last() == self@.entries[i as int]);
                match known_price(market@, after.last().0) {
                    Some(price) => {
                        let quantity = after.last().1;
                        assert(quantity * price >= 0) by (nonlinear_arith);
                    },
                    None => {},
                }
                assert forall|k: int| 0 <= k < after.len() && k != i implies after[k]
                    == before[k] by {}
            }
            match market.price_of(&entry.symbol) {
                None => {
                    if entry.quantity > 0 {
                        proof {
                            assert(self@.entries[i as int].1 > 0);
                        }
                        return Err(BacktestError::UnknownSymbolPrice);
                    }
                },
                Some(price) => {
                    if fits {
                        match entry.quantity.checked_mul(price) {
                            Some(term) => {
                                match total.checked_add(term) {
                                    Some(sum) => {
                                        total = sum;
                                    },
                                    None => {
                                        fits = false;
                                    },
                                }
                            },
                            None => {
                                fits = false;
                            },
                        }
                    }
                },
            }
            proof {
                if unpriced(after, market@) {
                    let k = choose|k: int|
                        0 <= k < after.len() && (#[trigger] after[k]).1 > 0
                            && !market@.contains_key(after[k].0);
                    if k < i {
                        assert(before[k].1 > 0);
                    }
                }
            }
            i += 1;
        }
        proof {
            assert(self@.entries.take(i as int) =~= self@.entries);
        }
        if fits {
            Ok(total)
        } else {
            Err(BacktestError::Overflow)
        }
    }
}

} // verus!

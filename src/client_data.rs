use crate::data_types::{
    TransactionAmountType, TransactionIdType, Transaction, TransactionType,
};
use std::collections::HashMap;
use vstd::prelude::*;

verus! {

broadcast use vstd::std_specs::hash::group_hash_axioms;

/// A malformed record, identified by its transaction id. Either one stops
/// the whole run.
#[derive(Clone, Copy, Debug, PartialEq, Eq, Structural)]
pub enum ClientDataError {
    /// A deposit or withdrawal without an amount.
    MissingAmount(TransactionIdType),
    /// A dispute, resolve or chargeback that carries an amount.
    UnexpectedAmount(TransactionIdType),
}

impl ClientDataError {
    /// The id of the offending transaction.
    pub fn tx(&self) -> (r: TransactionIdType)
        ensures
            r == match *self {
                ClientDataError::MissingAmount(t) => t,
                ClientDataError::UnexpectedAmount(t) => t,
            },
    {
        match *self {
            ClientDataError::MissingAmount(t) => t,
            ClientDataError::UnexpectedAmount(t) => t,
        }
    }
}

/// A past deposit or applied withdrawal, kept so that later disputes can
/// refer to it.
#[derive(Clone, Copy, Debug, PartialEq, Eq, Structural)]
pub struct HistoricalTransaction {
    pub amount: TransactionAmountType,
    pub under_dispute: bool,
}

/// The mathematical state of one client's account.
pub ghost struct AccountModel {
    pub available: int,
    pub held: int,
    pub locked: bool,
    pub history: Map<TransactionIdType, HistoricalTransaction>,
}

/// The state of an account that has seen no transaction.
pub open spec fn empty_account() -> AccountModel {
    AccountModel { available: 0, held: 0, locked: false, history: Map::empty() }
}

/// What one transaction does to an account: the new state, or the error
/// that rejects the record (leaving the account as it was).
///
/// Two choices are deliberate and kept as the ledger has always behaved:
/// a deposit or applied withdrawal whose id is already in the history
/// replaces that entry (the earlier amount can no longer be disputed), and
/// a dispute of a transaction that is already under dispute moves its
/// amount from available to held once more.
pub open spec fn step(a: AccountModel, t: Transaction) -> Result<AccountModel, ClientDataError> {
    match t.kind {
        TransactionType::Deposit => match t.amount {
            None => Err(ClientDataError::MissingAmount(t.tx)),
            Some(x) => Ok(AccountModel {
                available: a.available + x,
                history: a.history.insert(t.tx, HistoricalTransaction { amount: x, under_dispute: false }),
                ..a
            }),
        },
        TransactionType::Withdrawal => match t.amount {
            None => Err(ClientDataError::MissingAmount(t.tx)),
            Some(x) => if a.available - x >= 0 {
                Ok(AccountModel {
                    available: a.available - x,
                    history: a.history.insert(t.tx, HistoricalTransaction { amount: x, under_dispute: false }),
                    ..a
                })
            } else {
                Ok(a)
            },
        },
        TransactionType::Dispute => if t.amount.is_some() {
            Err(ClientDataError::UnexpectedAmount(t.tx))
        } else if a.history.contains_key(t.tx) {
            let h = a.history[t.tx];
            Ok(AccountModel {
                available: a.available - h.amount,
                held: a.held + h.amount,
                history: a.history.insert(t.tx, HistoricalTransaction { under_dispute: true, ..h }),
                ..a
            })
        } else {
            Ok(a)
        },
        TransactionType::Resolve => if t.amount.is_some() {
            Err(ClientDataError::UnexpectedAmount(t.tx))
        } else if a.history.contains_key(t.tx) && a.history[t.tx].under_dispute {
            let h = a.history[t.tx];
            Ok(AccountModel {
                available: a.available + h.amount,
                held: a.held - h.amount,
                history: a.history.insert(t.tx, HistoricalTransaction { under_dispute: false, ..h }),
                ..a
            })
        } else {
            Ok(a)
        },
        TransactionType::Chargeback => if t.amount.is_some() {
            Err(ClientDataError::UnexpectedAmount(t.tx))
        } else if a.history.contains_key(t.tx) && a.history[t.tx].under_dispute {
            let h = a.history[t.tx];
            Ok(AccountModel {
                held: a.held - h.amount,
                locked: true,
                history: a.history.insert(t.tx, HistoricalTransaction { under_dispute: false, ..h }),
                ..a
            })
        } else {
            Ok(a)
        },
    }
}

/// The balances of `a`, and their sum, can be stored in an `i64`.
pub open spec fn in_range(a: AccountModel) -> bool {
    &&& i64::MIN <= a.available <= i64::MAX
    &&& i64::MIN <= a.held <= i64::MAX
    &&& i64::MIN <= a.available + a.held <= i64::MAX
}

/// Applying `t` to `a` keeps the balances storable (an error always does).
/// This is the only limit on inputs beyond the rules themselves: balances
/// are `i64` counts of ten-thousandths.
pub open spec fn fits(a: AccountModel, t: Transaction) -> bool {
    match step(a, t) {
        Ok(b) => in_range(b),
        Err(_) => true,
    }
}

/// Whether an account with these balances is `in_range`.
fn balances_fit(available: i128, held: i128) -> (r: bool)
    requires
        -0x1_0000_0000_0000_0000 <= available <= 0x1_0000_0000_0000_0000,
        -0x1_0000_0000_0000_0000 <= held <= 0x1_0000_0000_0000_0000,
    ensures
        r == (i64::MIN <= available <= i64::MAX && i64::MIN <= held <= i64::MAX && i64::MIN <= available
            + held <= i64::MAX),
{
    let min = i64::MIN as i128;
    let max = i64::MAX as i128;
    min <= available && available <= max && min <= held && held <= max && min <= available + held
        && available + held <= max
}

/// One client's account: balances, lock flag and the history that
/// disputes refer to. The total is never stored: it is `available + held`.
pub struct ClientData {
    pub transactions: HashMap<TransactionIdType, HistoricalTransaction>,
    pub available: TransactionAmountType,
    pub held: TransactionAmountType,
    pub locked: bool,
}

impl View for ClientData {
    type V = AccountModel;

    open spec fn view(&self) -> AccountModel {
        AccountModel {
            available: self.available as int,
            held: self.held as int,
            locked: self.locked,
            history: self.transactions@,
        }
    }
}

impl ClientData {
    /// The total of the account fits an `i64`.
    pub open spec fn wf(&self) -> bool {
        in_range(self@)
    }

    /// A fresh account: no balance, not locked, no history.
    pub fn new() -> (r: ClientData)
        ensures
            r@ == empty_account(),
            r.wf(),
    {
        ClientData { transactions: HashMap::new(), available: 0, held: 0, locked: false }
    }

    /// The available plus the held funds.
    pub fn total(&self) -> (r: TransactionAmountType)
        requires
            self.wf(),
        ensures
            r == self.available + self.held,
    {
        self.available + self.held
    }

    /// The history entry recorded under `tx`, if any.
    pub fn history_entry(&self, tx: TransactionIdType) -> (r: Option<HistoricalTransaction>)
        ensures
            r == (if self@.history.contains_key(tx) {
                Some(self@.history[tx])
            } else {
                None
            }),
    {
        match self.transactions.get(&tx) {
            Some(h) => Some(*h),
            None => None,
        }
    }

    /// Whether applying `t` keeps the balances storable.
    pub fn fits_transaction(&self, t: &Transaction) -> (r: bool)
        requires
            self.wf(),
        ensures
            r == fits(self@, *t),
    {
        let a = self.available as i128;
        let h = self.held as i128;
        match t.kind {
            TransactionType::Deposit => match t.amount {
                Some(x) => balances_fit(a + x as i128, h),
                None => true,
            },
            TransactionType::Withdrawal => match t.amount {
                Some(x) => a < x as i128 || balances_fit(a - x as i128, h),
                None => true,
            },
            TransactionType::Dispute => {
                if t.amount.is_some() {
                    return true;
                }
                match self.history_entry(t.tx) {
                    Some(e) => balances_fit(a - e.amount as i128, h + e.amount as i128),
                    None => true,
                }
            },
            TransactionType::Resolve => {
                if t.amount.is_some() {
                    return true;
                }
                match self.history_entry(t.tx) {
                    Some(e) => !e.under_dispute || balances_fit(a + e.amount as i128, h - e.amount as i128),
                    None => true,
                }
            },
            TransactionType::Chargeback => {
                if t.amount.is_some() {
                    return true;
                }
                match self.history_entry(t.tx) {
                    Some(e) => !e.under_dispute || balances_fit(a, h - e.amount as i128),
                    None => true,
                }
            },
        }
    }

    /// Applies one transaction of this client, as `step` describes: on an
    /// error nothing changes.
    pub fn add_transaction(&mut self, transaction: &Transaction) -> (r: Result<(), ClientDataError>)
        requires
            fits(old(self)@, *transaction),
        ensures
            match step(old(self)@, *transaction) {
                Ok(b) => r is Ok && final(self)@ == b,
                Err(e) => r == Err::<(), ClientDataError>(e) && final(self)@ == old(self)@,
            },
    {
        let tx = transaction.tx;
        match transaction.kind {
            TransactionType::Deposit => match transaction.amount {
                Some(amount) => {
                    self.transactions.insert(tx, HistoricalTransaction { amount, under_dispute: false });
                    self.available = self.available + amount;
                    Ok(())
                },
                None => Err(ClientDataError::MissingAmount(tx)),
            },
            TransactionType::Withdrawal => match transaction.amount {
                Some(amount) => {
                    if self.available >= amount {
                        self.transactions.insert(tx, HistoricalTransaction { amount, under_dispute: false });
                        self.available = self.available - amount;
                    }
                    Ok(())
                },
                None => Err(ClientDataError::MissingAmount(tx)),
            },
            TransactionType::Dispute => {
                if transaction.amount.is_some() {
                    return Err(ClientDataError::UnexpectedAmount(tx));
                }
                if let Some(h) = self.history_entry(tx) {
                    self.available = self.available - h.amount;
                    self.held = self.held + h.amount;
                    self.transactions.insert(tx, HistoricalTransaction { under_dispute: true, ..h });
                }
                Ok(())
            },
            TransactionType::Resolve => {
                if transaction.amount.is_some() {
                    return Err(ClientDataError::UnexpectedAmount(tx));
                }
                if let Some(h) = self.history_entry(tx) {
                    if h.under_dispute {
                        self.available = self.available + h.amount;
                        self.held = self.held - h.amount;
                        self.transactions.insert(tx, HistoricalTransaction { under_dispute: false, ..h });
                    }
                }
                Ok(())
            },
            TransactionType::Chargeback => {
                if transaction.amount.is_some() {
                    return Err(ClientDataError::UnexpectedAmount(tx));
                }
                if let Some(h) = self.history_entry(tx) {
                    if h.under_dispute {
                        self.held = self.held - h.amount;
                        self.locked = true;
                        self.transactions.insert(tx, HistoricalTransaction { under_dispute: false, ..h });
                    }
                }
                Ok(())
            },
        }
    }
}

} // verus!

use crate::client_data::{empty_account, fits, step, AccountModel, ClientData, ClientDataError};
use crate::data_types::{TransactionAmountType, TransactionClientType, Transaction};
use std::collections::HashMap;
use vstd::prelude::*;

verus! {

broadcast use vstd::std_specs::hash::group_hash_axioms;

/// The account of `client` in the ledger `m`, or a fresh one if the client
/// was never seen.
pub open spec fn account_of(m: Map<TransactionClientType, AccountModel>, client: TransactionClientType) -> AccountModel {
    if m.contains_key(client) {
        m[client]
    } else {
        empty_account()
    }
}

/// What one transaction does to the whole ledger: it is routed to the
/// account of its client, which is created on first reference. An error
/// leaves the ledger as it was (an unseen client is then not created).
pub open spec fn ledger_step(m: Map<TransactionClientType, AccountModel>, t: Transaction) -> Result<
    Map<TransactionClientType, AccountModel>,
    ClientDataError,
> {
    match step(account_of(m, t.client), t) {
        Ok(b) => Ok(m.insert(t.client, b)),
        Err(e) => Err(e),
    }
}

/// Applying `t` to the ledger keeps the balances of its client storable.
pub open spec fn ledger_fits(m: Map<TransactionClientType, AccountModel>, t: Transaction) -> bool {
    fits(account_of(m, t.client), t)
}

/// One row of the final summary.
#[derive(Clone, Copy, Debug, PartialEq, Eq, Structural)]
pub struct AccountSummary {
    pub client: TransactionClientType,
    pub available: TransactionAmountType,
    pub held: TransactionAmountType,
    pub total: TransactionAmountType,
    pub locked: bool,
}

/// `r` is the row of `client`, whose account is `a`.
pub open spec fn summarises(r: AccountSummary, client: TransactionClientType, a: AccountModel) -> bool {
    &&& r.client == client
    &&& r.available == a.available
    &&& r.held == a.held
    &&& r.total == a.available + a.held
    &&& r.locked == a.locked
}

/// The ledger: every client seen so far and its account.
pub struct TransactionProcessor {
    data: HashMap<TransactionClientType, ClientData>,
    /// The clients, in order of first appearance.
    clients: Vec<TransactionClientType>,
}

impl View for TransactionProcessor {
    type V = Map<TransactionClientType, AccountModel>;

    closed spec fn view(&self) -> Map<TransactionClientType, AccountModel> {
        self.data@.map_values(|d: ClientData| d@)
    }
}

impl TransactionProcessor {
    /// Each client is listed once, and its account's balances fit.
    pub closed spec fn wf(&self) -> bool {
        &&& self.clients@.no_duplicates()
        &&& forall|c: TransactionClientType| #[trigger]
            self.data@.contains_key(c) <==> self.clients@.contains(c)
        &&& forall|c: TransactionClientType| #[trigger]
            self.data@.contains_key(c) ==> self.data@[c].wf()
    }

    /// An empty ledger.
    pub fn new() -> (r: TransactionProcessor)
        ensures
            r.wf(),
            r@ == Map::<TransactionClientType, AccountModel>::empty(),
    {
        let r = TransactionProcessor { data: HashMap::new(), clients: Vec::new() };
        assert(r@ =~= Map::<TransactionClientType, AccountModel>::empty());
        r
    }

    /// Whether `transaction` can be processed with balances that fit.
    pub fn can_process(&self, transaction: &Transaction) -> (r: bool)
        requires
            self.wf(),
        ensures
            r == ledger_fits(self@, *transaction),
    {
        match self.data.get(&transaction.client) {
            Some(d) => d.fits_transaction(transaction),
            None => {
                let d = ClientData::new();
                d.fits_transaction(transaction)
            },
        }
    }

    /// Routes `transaction` to its client's account (creating it on first
    /// reference) and applies it there. An error is handed back unchanged
    /// and leaves the ledger as it was.
    pub fn process_transaction(&mut self, transaction: Transaction) -> (r: Result<(), ClientDataError>)
        requires
            old(self).wf(),
            ledger_fits(old(self)@, transaction),
        ensures
            final(self).wf(),
            match ledger_step(old(self)@, transaction) {
                Ok(m) => r is Ok && final(self)@ == m,
                Err(e) => r == Err::<(), ClientDataError>(e) && final(self)@ == old(self)@,
            },
    {
        let c = transaction.client;
        let ghost old_data = self.data@;
        match self.data.remove(&c) {
            Some(mut client) => {
                let res = client.add_transaction(&transaction);
                self.data.insert(c, client);
                assert(self@ =~= old(self)@.insert(c, client@));
                if res.is_err() {
                    assert(old_data.insert(c, old_data[c]) =~= old_data);
                    assert(self@ =~= old(self)@);
                }
                res
            },
            None => {
                let mut client = ClientData::new();
                let res = client.add_transaction(&transaction);
                if res.is_ok() {
                    self.data.insert(c, client);
                    self.clients.push(c);
                    assert(self@ =~= old(self)@.insert(c, client@));
                    assert forall|k: TransactionClientType| #[trigger]
                        self.data@.contains_key(k) <==> self.clients@.contains(k) by {
                        if k != c {
                            assert(self.clients@.contains(k) ==> old(self).clients@.contains(k)) by {
                                if self.clients@.contains(k) {
                                    let i = choose|i: int| 0 <= i < self.clients@.len() && self.clients@[i] == k;
                                    assert(i < old(self).clients@.len());
                                    assert(old(self).clients@[i] == k);
                                }
                            }
                            if old(self).clients@.contains(k) {
                                let i = choose|i: int| 0 <= i < old(self).clients@.len() && old(self).clients@[i] == k;
                                assert(self.clients@[i] == k);
                            }
                        } else {
                            assert(self.clients@[self.clients@.len() - 1] == c);
                        }
                    }
                } else {
                    assert(self.data@ =~= old_data);
                }
                res
            },
        }
    }

    /// The summary row of `client`, if it was ever seen.
    pub fn account(&self, client: TransactionClientType) -> (r: Option<AccountSummary>)
        requires
            self.wf(),
        ensures
            match r {
                Some(row) => self@.contains_key(client) && summarises(row, client, self@[client]),
                None => !self@.contains_key(client),
            },
    {
        match self.data.get(&client) {
            Some(d) => Some(
                AccountSummary {
                    client,
                    available: d.available,
                    held: d.held,
                    total: d.total(),
                    locked: d.locked,
                },
            ),
            None => None,
        }
    }

    /// One row per client ever seen, in order of first appearance, with
    /// the total computed as `available + held`.
    pub fn render(&self) -> (rows: Vec<AccountSummary>)
        requires
            self.wf(),
        ensures
            forall|i: int| 0 <= i < rows@.len() ==> self@.contains_key(#[trigger] rows@[i].client)
                && summarises(rows@[i], rows@[i].client, self@[rows@[i].client]),
            forall|i: int, j: int| 0 <= i < j < rows@.len() ==> rows@[i].client != rows@[j].client,
            forall|c: TransactionClientType| self@.contains_key(c) ==> exists|i: int|
                0 <= i < rows@.len() && #[trigger] rows@[i].client == c,
    {
        let mut rows: Vec<AccountSummary> = Vec::new();
        let mut i: usize = 0;
        while i < self.clients.len()
            invariant
                self.wf(),
                i <= self.clients@.len(),
                rows@.len() == i,
                forall|k: int| 0 <= k < i ==> #[trigger] rows@[k].client == self.clients@[k]
                    && self@.contains_key(rows@[k].client)
                    && summarises(rows@[k], rows@[k].client, self@[rows@[k].client]),
            decreases self.clients@.len() - i,
        {
            let c = self.clients[i];
            assert(self.clients@.contains(c));
            let row = self.account(c);
            match row {
                Some(r) => rows.push(r),
                None => {},
            }
            i = i + 1;
        }
        assert forall|c: TransactionClientType| self@.contains_key(c) implies exists|k: int|
            0 <= k < rows@.len() && #[trigger] rows@[k].client == c by {
            assert(self.data@.contains_key(c));
            assert(self.clients@.contains(c));
            let k = choose|k: int| 0 <= k < self.clients@.len() && self.clients@[k] == c;
            assert(rows@[k].client == c);
        }
        assert forall|a: int, b: int| 0 <= a < b < rows@.len() implies rows@[a].client != rows@[b].client by {
            assert(rows@[a].client == self.clients@[a]);
            assert(rows@[b].client == self.clients@[b]);
        }
        rows
    }
}

} // verus!

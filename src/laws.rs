use crate::client_data::{empty_account, step, AccountModel, HistoricalTransaction};
use crate::transactions::ledger_step;
use crate::data_types::{TransactionClientType, TransactionIdType, Transaction, TransactionType};
use vstd::prelude::*;

verus! {

/// Replays `ts` on `a` in order, stopping at the first error.
pub open spec fn run(a: AccountModel, ts: Seq<Transaction>) -> Result<AccountModel, crate::client_data::ClientDataError>
    decreases ts.len(),
{
    if ts.len() == 0 {
        Ok(a)
    } else {
        match step(a, ts[0]) {
            Ok(b) => run(b, ts.drop_first()),
            Err(e) => Err(e),
        }
    }
}

/// A deposit or withdrawal that carries its amount.
pub open spec fn is_funds_movement(t: Transaction) -> bool {
    (t.kind == TransactionType::Deposit || t.kind == TransactionType::Withdrawal) && t.amount.is_some()
}

/// The sum of the deposits in `ts` (every deposit with an amount succeeds).
pub open spec fn deposits_total(ts: Seq<Transaction>) -> int
    decreases ts.len(),
{
    if ts.len() == 0 {
        0
    } else {
        (if ts[0].kind == TransactionType::Deposit && ts[0].amount.is_some() {
            ts[0].amount->Some_0 as int
        } else {
            0
        }) + deposits_total(ts.drop_first())
    }
}

/// The sum of the withdrawals in `ts` that were applied when `ts` was
/// replayed on `a`: those for which the funds then available sufficed.
pub open spec fn withdrawals_applied(a: AccountModel, ts: Seq<Transaction>) -> int
    decreases ts.len(),
{
    if ts.len() == 0 {
        0
    } else {
        let t = ts[0];
        let here = if t.kind == TransactionType::Withdrawal && t.amount.is_some() && a.available
            - t.amount->Some_0 >= 0 {
            t.amount->Some_0 as int
        } else {
            0
        };
        match step(a, t) {
            Ok(b) => here + withdrawals_applied(b, ts.drop_first()),
            Err(_) => here,
        }
    }
}

proof fn lemma_funds_movements(a: AccountModel, ts: Seq<Transaction>)
    requires
        forall|i: int| 0 <= i < ts.len() ==> is_funds_movement(#[trigger] ts[i]),
    ensures
        run(a, ts) is Ok,
        run(a, ts)->Ok_0.available == a.available + deposits_total(ts) - withdrawals_applied(a, ts),
        run(a, ts)->Ok_0.held == a.held,
        run(a, ts)->Ok_0.locked == a.locked,
    decreases ts.len(),
{
    if ts.len() > 0 {
        assert(is_funds_movement(ts[0]));
        let b = step(a, ts[0])->Ok_0;
        assert forall|i: int| 0 <= i < ts.drop_first().len() implies is_funds_movement(
            #[trigger] ts.drop_first()[i],
        ) by {
            assert(ts.drop_first()[i] == ts[i + 1]);
        }
        lemma_funds_movements(b, ts.drop_first());
    }
}

/// On a stream of deposits and withdrawals alone, a fresh account ends
/// with `available` equal to the deposits less the withdrawals that were
/// applied, nothing held, and not locked.
pub proof fn law_funds_movements_only(ts: Seq<Transaction>)
    requires
        forall|i: int| 0 <= i < ts.len() ==> is_funds_movement(#[trigger] ts[i]),
    ensures
        run(empty_account(), ts) is Ok,
        run(empty_account(), ts)->Ok_0.available == deposits_total(ts) - withdrawals_applied(
            empty_account(),
            ts,
        ),
        run(empty_account(), ts)->Ok_0.held == 0,
        !run(empty_account(), ts)->Ok_0.locked,
{
    lemma_funds_movements(empty_account(), ts);
}

/// A withdrawal is applied exactly when the available funds minus its
/// amount are not negative; otherwise the account is left unchanged.
pub proof fn law_withdrawal_applied_iff_funds(a: AccountModel, t: Transaction)
    requires
        t.kind == TransactionType::Withdrawal,
        t.amount.is_some(),
    ensures
        step(a, t) is Ok,
        a.available - t.amount->Some_0 >= 0 ==> step(a, t)->Ok_0 == (AccountModel {
            available: a.available - t.amount->Some_0,
            history: a.history.insert(
                t.tx,
                HistoricalTransaction { amount: t.amount->Some_0, under_dispute: false },
            ),
            ..a
        }),
        a.available - t.amount->Some_0 < 0 ==> step(a, t)->Ok_0 == a,
{
}

/// A dispute of an unknown transaction, and a resolve or chargeback of
/// one that is unknown or not under dispute, change nothing.
pub proof fn law_stale_reference_is_noop(a: AccountModel, t: Transaction)
    requires
        t.amount is None,
        t.kind == TransactionType::Dispute ==> !a.history.contains_key(t.tx),
        t.kind == TransactionType::Resolve || t.kind == TransactionType::Chargeback ==> !(
        a.history.contains_key(t.tx) && a.history[t.tx].under_dispute),
        t.kind != TransactionType::Deposit,
        t.kind != TransactionType::Withdrawal,
    ensures
        step(a, t) == Ok::<AccountModel, crate::client_data::ClientDataError>(a),
{
}

/// The record of the given kind on `tx`, without an amount.
pub open spec fn reference(kind: TransactionType, client: TransactionClientType, tx: TransactionIdType) -> Transaction {
    Transaction { kind, client, tx, amount: None }
}

/// A resolve right after a dispute of the same transaction gives back the
/// available and held funds of before the dispute, and clears the dispute
/// flag.
pub proof fn law_resolve_after_dispute(a: AccountModel, client: TransactionClientType, tx: TransactionIdType)
    ensures
        ({
            let b = run(a, seq![
                reference(TransactionType::Dispute, client, tx),
                reference(TransactionType::Resolve, client, tx),
            ]);
            &&& b is Ok
            &&& b->Ok_0.available == a.available
            &&& b->Ok_0.held == a.held
            &&& b->Ok_0.locked == a.locked
            &&& a.history.contains_key(tx) ==> b->Ok_0.history == a.history.insert(
                tx,
                HistoricalTransaction { under_dispute: false, ..a.history[tx] },
            )
            &&& !a.history.contains_key(tx) ==> b->Ok_0 == a
        }),
{
    let s = seq![
        reference(TransactionType::Dispute, client, tx),
        reference(TransactionType::Resolve, client, tx),
    ];
    assert(s.drop_first().drop_first().len() == 0);
    assert(s.drop_first()[0] == s[1]);
    reveal_with_fuel(run, 3);
    if a.history.contains_key(tx) {
        let d = step(a, s[0])->Ok_0;
        assert(d.history.insert(tx, HistoricalTransaction { under_dispute: false, ..d.history[tx] })
            =~= a.history.insert(tx, HistoricalTransaction { under_dispute: false, ..a.history[tx] }));
    }
}

/// A chargeback right after a dispute of the same transaction locks the
/// account, takes the disputed amount out of the held funds without giving
/// it back to the available ones, and clears the dispute flag.
pub proof fn law_chargeback_after_dispute(a: AccountModel, client: TransactionClientType, tx: TransactionIdType)
    ensures
        ({
            let b = run(a, seq![
                reference(TransactionType::Dispute, client, tx),
                reference(TransactionType::Chargeback, client, tx),
            ]);
            &&& b is Ok
            &&& a.history.contains_key(tx) ==> {
                &&& b->Ok_0.locked
                &&& b->Ok_0.held == a.held
                &&& b->Ok_0.available == a.available - a.history[tx].amount
                &&& b->Ok_0.history == a.history.insert(
                    tx,
                    HistoricalTransaction { under_dispute: false, ..a.history[tx] },
                )
            }
            &&& !a.history.contains_key(tx) ==> b->Ok_0 == a
        }),
{
    let s = seq![
        reference(TransactionType::Dispute, client, tx),
        reference(TransactionType::Chargeback, client, tx),
    ];
    assert(s.drop_first().drop_first().len() == 0);
    assert(s.drop_first()[0] == s[1]);
    reveal_with_fuel(run, 3);
    if a.history.contains_key(tx) {
        let d = step(a, s[0])->Ok_0;
        assert(d.history.insert(tx, HistoricalTransaction { under_dispute: false, ..d.history[tx] })
            =~= a.history.insert(tx, HistoricalTransaction { under_dispute: false, ..a.history[tx] }));
    }
}

/// Once an account is locked, no transaction, nor any sequence of them,
/// unlocks it.
pub proof fn law_locked_is_monotone(a: AccountModel, ts: Seq<Transaction>)
    requires
        a.locked,
    ensures
        run(a, ts) is Ok ==> run(a, ts)->Ok_0.locked,
    decreases ts.len(),
{
    if ts.len() > 0 {
        if let Ok(b) = step(a, ts[0]) {
            law_locked_is_monotone(b, ts.drop_first());
        }
    }
}

/// In the ledger, a locked account stays locked whatever transaction is
/// processed next, for its own client or another.
pub proof fn law_ledger_locked_is_monotone(
    m: Map<TransactionClientType, AccountModel>,
    t: Transaction,
    client: TransactionClientType,
)
    requires
        m.contains_key(client),
        m[client].locked,
    ensures
        ledger_step(m, t) is Ok ==> ledger_step(m, t)->Ok_0.contains_key(client) && ledger_step(
            m,
            t,
        )->Ok_0[client].locked,
{
}

/// A transaction changes the account of its own client only: every other
/// client keeps its account, and no other client appears.
pub proof fn law_ledger_clients_are_independent(
    m: Map<TransactionClientType, AccountModel>,
    t: Transaction,
    client: TransactionClientType,
)
    requires
        client != t.client,
    ensures
        ledger_step(m, t) is Ok ==> {
            &&& ledger_step(m, t)->Ok_0.contains_key(client) == m.contains_key(client)
            &&& m.contains_key(client) ==> ledger_step(m, t)->Ok_0[client] == m[client]
        },
{
}

} // verus!

use vstd::prelude::*;

verus! {

/// Client identifier.
pub type TransactionClientType = u16;

/// Transaction identifier.
pub type TransactionIdType = u32;

/// A decimal amount held as a whole number of ten-thousandths
/// (four fractional digits): `1.5` is `15000`.
pub type TransactionAmountType = i64;

/// The kind of a transaction record.
#[derive(Clone, Copy, Debug, PartialEq, Eq, Structural)]
pub enum TransactionType {
    Deposit,
    Withdrawal,
    Dispute,
    Resolve,
    Chargeback,
}

/// One input record. `amount` is present for deposits and withdrawals
/// and absent for the dispute lifecycle; anything else is malformed.
#[derive(Clone, Copy, Debug)]
pub struct Transaction {
    pub kind: TransactionType,
    pub client: TransactionClientType,
    pub tx: TransactionIdType,
    pub amount: Option<TransactionAmountType>,
}

impl Transaction {
    /// Builds a record from its four fields.
    pub fn new(
        kind: TransactionType,
        client: TransactionClientType,
        tx: TransactionIdType,
        amount: Option<TransactionAmountType>,
    ) -> (r: Transaction)
        ensures
            r.kind == kind,
            r.client == client,
            r.tx == tx,
            r.amount == amount,
    {
        Transaction { kind, client, tx, amount }
    }
}

/// `b` with an ASCII capital letter turned into its small letter.
pub open spec fn lower_byte(b: u8) -> u8 {
    if 65 <= b <= 90 {
        (b + 32) as u8
    } else {
        b
    }
}

/// `s` with its ASCII capitals turned into small letters.
pub open spec fn lowered(s: Seq<u8>) -> Seq<u8> {
    s.map_values(|b: u8| lower_byte(b))
}

/// The name of each kind of transaction in the input, in small letters.
pub open spec fn kind_name(k: TransactionType) -> Seq<u8> {
    match k {
        TransactionType::Deposit => seq![100u8, 101, 112, 111, 115, 105, 116],
        TransactionType::Withdrawal => seq![119u8, 105, 116, 104, 100, 114, 97, 119, 97, 108],
        TransactionType::Dispute => seq![100u8, 105, 115, 112, 117, 116, 101],
        TransactionType::Resolve => seq![114u8, 101, 115, 111, 108, 118, 101],
        TransactionType::Chargeback => seq![99u8, 104, 97, 114, 103, 101, 98, 97, 99, 107],
    }
}

/// Whether `s`, with capitals made small, is `name`.
fn names(s: &[u8], name: &Vec<u8>) -> (r: bool)
    ensures
        r == (lowered(s@) == name@),
{
    if s.len() != name.len() {
        assert(lowered(s@).len() != name@.len());
        return false;
    }
    let mut i: usize = 0;
    while i < s.len()
        invariant
            i <= s@.len() == name@.len(),
            forall|k: int| 0 <= k < i ==> lower_byte(s@[k]) == name@[k],
        decreases s@.len() - i,
    {
        let b = s[i];
        let l = if 65 <= b && b <= 90 {
            b + 32
        } else {
            b
        };
        if l != name[i] {
            assert(lowered(s@)[i as int] != name@[i as int]);
            return false;
        }
        i = i + 1;
    }
    assert(lowered(s@) =~= name@);
    true
}

/// Reads the kind of a transaction from its name, ignoring the case of
/// ASCII letters (`"deposit"`, `"Withdrawal"`, `"DISPUTE"`, ...).
pub fn parse_transaction_type(s: &[u8]) -> (r: Option<TransactionType>)
    ensures
        match r {
            Some(k) => lowered(s@) == kind_name(k),
            None => forall|k: TransactionType| lowered(s@) != #[trigger] kind_name(k),
        },
{
    let deposit = vec![100u8, 101, 112, 111, 115, 105, 116];
    let withdrawal = vec![119u8, 105, 116, 104, 100, 114, 97, 119, 97, 108];
    let dispute = vec![100u8, 105, 115, 112, 117, 116, 101];
    let resolve = vec![114u8, 101, 115, 111, 108, 118, 101];
    let chargeback = vec![99u8, 104, 97, 114, 103, 101, 98, 97, 99, 107];
    assert(deposit@ =~= kind_name(TransactionType::Deposit));
    assert(withdrawal@ =~= kind_name(TransactionType::Withdrawal));
    assert(dispute@ =~= kind_name(TransactionType::Dispute));
    assert(resolve@ =~= kind_name(TransactionType::Resolve));
    assert(chargeback@ =~= kind_name(TransactionType::Chargeback));
    if names(s, &deposit) {
        Some(TransactionType::Deposit)
    } else if names(s, &withdrawal) {
        Some(TransactionType::Withdrawal)
    } else if names(s, &dispute) {
        Some(TransactionType::Dispute)
    } else if names(s, &resolve) {
        Some(TransactionType::Resolve)
    } else if names(s, &chargeback) {
        Some(TransactionType::Chargeback)
    } else {
        None
    }
}

} // verus!

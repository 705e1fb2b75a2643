use btran::client_data::{ClientData, ClientDataError};
use btran::data_types::{parse_transaction_type, Transaction, TransactionType};
use btran::decimal::{format_amount, parse_amount};
use btran::transactions::{AccountSummary, TransactionProcessor};

type OutputType = Vec<(u16, f32, f32, bool)>; // client id, available, held, account locked

fn units(x: f32) -> i64 {
    (x as f64 * 10000.0).round() as i64
}

fn parse_line(line: &str) -> Transaction {
    let fields: Vec<&str> = line.split(',').map(|f| f.trim()).collect();
    let kind = parse_transaction_type(fields[0].as_bytes()).unwrap();
    let client: u16 = fields[1].parse().unwrap();
    let tx: u32 = fields[2].parse().unwrap();
    let amount = match fields.get(3) {
        Some(a) if !a.is_empty() => Some(parse_amount(a.as_bytes()).unwrap()),
        _ => None,
    };
    Transaction::new(kind, client, tx, amount)
}

fn run_text(input: &str) -> Result<TransactionProcessor, ClientDataError> {
    let mut tp = TransactionProcessor::new();
    for line in input.lines().skip(1) {
        let t = parse_line(line);
        assert!(tp.can_process(&t));
        tp.process_transaction(t)?;
    }
    Ok(tp)
}

fn validate_tp(input: &str, output: OutputType) {
    let tp = run_text(input);
    assert!(tp.is_ok());
    for (client, available, held, locked) in output {
        let c = tp.as_ref().unwrap().account(client).unwrap();
        assert_eq!(c.available, units(available));
        assert_eq!(c.held, units(held));
        assert_eq!(c.locked, locked);
    }
}

fn amount_text(v: i64) -> String {
    String::from_utf8(format_amount(v)).unwrap()
}

fn render_text(tp: &TransactionProcessor) -> String {
    let mut out = String::from("client,available,held,total,locked\n");
    for r in tp.render() {
        out.push_str(&format!(
            "{},{},{},{},{}\n",
            r.client,
            amount_text(r.available),
            amount_text(r.held),
            amount_text(r.total),
            r.locked
        ));
    }
    out
}

fn tx(kind: TransactionType, client: u16, id: u32, amount: Option<i64>) -> Transaction {
    Transaction::new(kind, client, id, amount)
}

fn apply_all(tp: &mut TransactionProcessor, ts: &[Transaction]) -> Result<(), ClientDataError> {
    for t in ts {
        assert!(tp.can_process(t));
        tp.process_transaction(*t)?;
    }
    Ok(())
}

#[test]
fn test_input_1() {
    let input = "type, client, tx, amount
deposit, 1, 1, 1.0
deposit, 2, 2, 3.0
deposit, 1, 3, 2.0
withdrawal, 1, 4, 1.5
withdrawal, 2, 5, 3.0";
    let output: OutputType = vec![(1, 1.5, 0.0, false), (2, 0.0, 0.0, false)];
    validate_tp(input, output);
}

#[test]
fn test_input_2() {
    let input = "type, client, tx, amount
deposit, 1, 1, 1.0
deposit, 2, 2, 2.0
deposit, 1, 3, 2.0
withdrawal, 1, 4, 1.5
withdrawal, 2, 5, 3.0";
    let output: OutputType = vec![(1, 1.5, 0.0, false), (2, 2.0, 0.0, false)];
    validate_tp(input, output);
}

#[test]
fn test_input_3() {
    let input = "type, client, tx, amount
deposit, 1, 1, 1.1234
deposit, 2, 2, 2.1234
deposit, 1, 3, 2.1234
withdrawal, 1, 4, 1.1234
withdrawal, 2, 5, 3.1234";
    let output: OutputType = vec![(1, 2.1234, 0.0, false), (2, 2.1234, 0.0, false)];
    validate_tp(input, output);
}

#[test]
fn test_dispute_1() {
    let input = "type, client, tx, amount
deposit, 1, 1, 1.0
deposit, 1, 2, 2.0
dispute, 1, 2
dispute, 1, 3";
    let output: OutputType = vec![(1, 1.0, 2.0, false)];
    validate_tp(input, output);
}

#[test]
fn test_dispute_2() {
    let input = "type, client, tx, amount
deposit, 1, 1, 1.0
deposit, 1, 2, 2.0
dispute, 1, 2
dispute, 1, 1
deposit, 1, 3, 6.0";
    let output: OutputType = vec![(1, 6.0, 3.0, false)];
    validate_tp(input, output);
}

#[test]
fn test_dispute_3() {
    let input = "type, client, tx, amount
deposit, 1, 1, 1.0
deposit, 1, 2, 2.0
withdrawal, 1, 3, 2.5
dispute, 1, 2";
    let output: OutputType = vec![(1, -1.5, 2.0, false)];
    validate_tp(input, output);
}

#[test]
fn test_resolve_1() {
    let input = "type, client, tx, amount
deposit, 1, 1, 1.0
deposit, 1, 2, 2.0
withdrawal, 1, 3, 2.5
dispute, 1, 2
deposit, 1, 4, 1.0
resolve, 1, 2";
    let output: OutputType = vec![(1, 1.5, 0.0, false)];
    validate_tp(input, output);
}

#[test]
fn test_resolve_2() {
    let input = "type, client, tx, amount
deposit, 1, 1, 1.0
deposit, 1, 2, 2.0
withdrawal, 1, 3, 2.5
dispute, 1, 2
dispute, 1, 1
deposit, 1, 4, 1.0
resolve, 1, 2,
resolve, 1, 1";
    let output: OutputType = vec![(1, 1.5, 0.0, false)];
    validate_tp(input, output);
}

#[test]
fn test_resolve_3() {
    let input = "type, client, tx, amount
deposit, 1, 1, 1.0
deposit, 1, 2, 2.0
withdrawal, 1, 3, 2.5
dispute, 1, 2
deposit, 1, 4, 1.0
resolve, 1, 3";
    let output: OutputType = vec![(1, -0.5, 2.0, false)];
    validate_tp(input, output);
}

#[test]
fn test_charge_back_1() {
    let input = "type, client, tx, amount
deposit, 1, 1, 1.0
deposit, 1, 2, 2.0
withdrawal, 1, 3, 2.5
dispute, 1, 2
deposit, 1, 4, 1.0
chargeback, 1, 2";
    let output: OutputType = vec![(1, -0.5, 0.0, true)];
    validate_tp(input, output);
}

#[test]
fn test_charge_back_2() {
    let input = "type, client, tx, amount
deposit, 1, 1, 1.0
deposit, 1, 2, 2.0
withdrawal, 1, 3, 2.5
dispute, 1, 2
deposit, 1, 4, 1.0
dispute, 1, 4
chargeback, 1, 2
deposit, 1, 5, 1.0
chargeback, 1, 4";
    let output: OutputType = vec![(1, -0.5, 0.0, true)];
    validate_tp(input, output);
}

#[test]
fn test_dispute_mix() {
    let input = "type, client, tx, amount
deposit, 1, 1, 1.0
deposit, 1, 2, 2.0
withdrawal, 1, 3, 2.5
dispute, 1, 2
deposit, 1, 4, 1.0
dispute, 1, 4
chargeback, 1, 2
deposit, 1, 5, 1.0
resolve, 1, 4";
    let output: OutputType = vec![(1, 0.5, 0.0, true)];
    validate_tp(input, output);
}

#[test]
fn test_output_1() {
    let input = "type, client, tx, amount
deposit, 1, 1, 1.0
deposit, 1, 2, 2.0
withdrawal, 1, 3, 1.5
dispute, 1, 2";

    let output = "client,available,held,total,locked
1,-0.5,2,1.5,false
";

    let tp = run_text(input);
    assert!(tp.is_ok());
    let out = render_text(&tp.unwrap());
    assert_eq!(out, output);
}

#[test]
fn test_output_2() {
    let input = "type, client, tx, amount
deposit, 1, 1, 1.0
deposit, 1, 2, 2.0
withdrawal, 1, 3, 1.5
dispute, 1, 2
deposit, 1, 4, 1.0001
chargeback, 1, 2";

    let output = "client,available,held,total,locked
1,0.5001,0,0.5001,true
";

    let tp = run_text(input);
    assert!(tp.is_ok());
    let out = render_text(&tp.unwrap());
    assert_eq!(out, output);
}

#[test]
fn test_big_1() {
    let mut input = String::from("type, client, tx, amount\n");
    input.reserve(0xffff * 12 + 0xffff * 2);

    for i in 1..0xffff {
        input.push_str(&format!("deposit,{},{},{}\n", i, i, i));
    }

    let tp = run_text(&input);
    assert!(tp.is_ok());

    for i in 1..0xffffu16 {
        let c = tp.as_ref().unwrap().account(i).unwrap();
        assert_eq!(c.available, units(i as f32));
        assert_eq!(c.held, 0);
        assert_eq!(c.locked, false);
    }
}

#[test]
fn test_big_2() {
    let mut input = String::from("type, client, tx, amount\n");
    input.reserve(0xffff * 14);

    let mut tx = 1;
    for i in 1..0xff {
        for j in 1..0xff {
            input.push_str(&format!("deposit,{},{},{}\n", i, tx, j));
            tx += 1;
        }
    }

    let tp = run_text(&input);
    assert!(tp.is_ok());

    for i in 1..0xffu16 {
        let c = tp.as_ref().unwrap().account(i).unwrap();
        assert_eq!(c.available, units((0xff * 0xfe / 2) as f32));
        assert_eq!(c.held, 0);
        assert_eq!(c.locked, false);
    }
}

#[test]
fn scenario_a_dispute_holds_funds() {
    let mut tp = TransactionProcessor::new();
    let ts = [
        tx(TransactionType::Deposit, 1, 1, Some(10000)),
        tx(TransactionType::Deposit, 1, 2, Some(20000)),
        tx(TransactionType::Withdrawal, 1, 3, Some(15000)),
        tx(TransactionType::Dispute, 1, 2, None),
    ];
    assert_eq!(apply_all(&mut tp, &ts), Ok(()));
    assert_eq!(
        tp.account(1),
        Some(AccountSummary { client: 1, available: -5000, held: 20000, total: 15000, locked: false })
    );
}

#[test]
fn scenario_b_chargeback_locks() {
    let mut tp = TransactionProcessor::new();
    let ts = [
        tx(TransactionType::Deposit, 1, 1, Some(10000)),
        tx(TransactionType::Deposit, 1, 2, Some(20000)),
        tx(TransactionType::Withdrawal, 1, 3, Some(15000)),
        tx(TransactionType::Dispute, 1, 2, None),
        tx(TransactionType::Chargeback, 1, 2, None),
    ];
    assert_eq!(apply_all(&mut tp, &ts), Ok(()));
    assert_eq!(
        tp.account(1),
        Some(AccountSummary { client: 1, available: -5000, held: 0, total: -5000, locked: true })
    );
}

#[test]
fn scenario_c_overdraft_is_dropped() {
    let mut tp = TransactionProcessor::new();
    let ts = [
        tx(TransactionType::Deposit, 1, 1, Some(50000)),
        tx(TransactionType::Withdrawal, 1, 2, Some(100000)),
    ];
    assert_eq!(apply_all(&mut tp, &ts), Ok(()));
    let expected = AccountSummary { client: 1, available: 50000, held: 0, total: 50000, locked: false };
    assert_eq!(tp.account(1), Some(expected));
    assert_eq!(apply_all(&mut tp, &[tx(TransactionType::Dispute, 1, 2, None)]), Ok(()));
    assert_eq!(tp.account(1), Some(expected));
}

#[test]
fn scenario_d_missing_amount_halts() {
    let mut tp = TransactionProcessor::new();
    let ts = [
        tx(TransactionType::Deposit, 1, 1, Some(10000)),
        tx(TransactionType::Deposit, 1, 2, None),
        tx(TransactionType::Deposit, 1, 3, Some(10000)),
    ];
    assert_eq!(apply_all(&mut tp, &ts), Err(ClientDataError::MissingAmount(2)));
    assert_eq!(tp.account(1).unwrap().available, 10000);
}

#[test]
fn scenario_d_unexpected_amount_halts() {
    let mut tp = TransactionProcessor::new();
    let ts = [
        tx(TransactionType::Deposit, 1, 1, Some(10000)),
        tx(TransactionType::Dispute, 1, 1, Some(10000)),
        tx(TransactionType::Deposit, 1, 3, Some(10000)),
    ];
    let r = apply_all(&mut tp, &ts);
    assert_eq!(r, Err(ClientDataError::UnexpectedAmount(1)));
    assert_eq!(r.unwrap_err().tx(), 1);
    assert_eq!(tp.account(1).unwrap().available, 10000);
    assert_eq!(tp.account(1).unwrap().held, 0);
}

#[test]
fn error_on_new_client_creates_no_account() {
    let mut tp = TransactionProcessor::new();
    let r = tp.process_transaction(tx(TransactionType::Withdrawal, 7, 1, None));
    assert_eq!(r, Err(ClientDataError::MissingAmount(1)));
    assert_eq!(tp.account(7), None);
    assert!(tp.render().is_empty());
}

#[test]
fn resolve_and_chargeback_carrying_amount_are_rejected() {
    let mut c = ClientData::new();
    assert_eq!(c.add_transaction(&tx(TransactionType::Deposit, 1, 1, Some(5))), Ok(()));
    assert_eq!(
        c.add_transaction(&tx(TransactionType::Resolve, 1, 1, Some(5))),
        Err(ClientDataError::UnexpectedAmount(1))
    );
    assert_eq!(
        c.add_transaction(&tx(TransactionType::Chargeback, 1, 1, Some(5))),
        Err(ClientDataError::UnexpectedAmount(1))
    );
    assert_eq!(
        c.add_transaction(&tx(TransactionType::Withdrawal, 1, 2, None)),
        Err(ClientDataError::MissingAmount(2))
    );
    assert_eq!(c.available, 5);
}

#[test]
fn deposits_and_withdrawals_only_net_out() {
    let mut tp = TransactionProcessor::new();
    let ts = [
        tx(TransactionType::Deposit, 3, 1, Some(70000)),
        tx(TransactionType::Withdrawal, 3, 2, Some(20000)),
        tx(TransactionType::Withdrawal, 3, 3, Some(90000)),
        tx(TransactionType::Deposit, 3, 4, Some(1)),
        tx(TransactionType::Withdrawal, 3, 5, Some(50001)),
    ];
    assert_eq!(apply_all(&mut tp, &ts), Ok(()));
    let a = tp.account(3).unwrap();
    assert_eq!(a.available, 70000 - 20000 + 1 - 50001);
    assert_eq!(a.held, 0);
    assert!(!a.locked);
}

#[test]
fn withdrawal_of_exactly_available_is_applied() {
    let mut c = ClientData::new();
    assert_eq!(c.add_transaction(&tx(TransactionType::Deposit, 1, 1, Some(30000))), Ok(()));
    assert_eq!(c.add_transaction(&tx(TransactionType::Withdrawal, 1, 2, Some(30000))), Ok(()));
    assert_eq!(c.available, 0);
    assert!(c.history_entry(2).is_some());
    assert_eq!(c.add_transaction(&tx(TransactionType::Withdrawal, 1, 3, Some(1))), Ok(()));
    assert_eq!(c.available, 0);
    assert!(c.history_entry(3).is_none());
}

#[test]
fn stale_references_are_ignored() {
    let mut c = ClientData::new();
    assert_eq!(c.add_transaction(&tx(TransactionType::Deposit, 1, 1, Some(30000))), Ok(()));
    for kind in [TransactionType::Dispute, TransactionType::Resolve, TransactionType::Chargeback] {
        assert_eq!(c.add_transaction(&tx(kind, 1, 9, None)), Ok(()));
    }
    assert_eq!(c.add_transaction(&tx(TransactionType::Resolve, 1, 1, None)), Ok(()));
    assert_eq!(c.add_transaction(&tx(TransactionType::Chargeback, 1, 1, None)), Ok(()));
    assert_eq!((c.available, c.held, c.locked), (30000, 0, false));
    assert_eq!(c.history_entry(1).unwrap().under_dispute, false);
}

#[test]
fn resolve_after_dispute_restores_balances() {
    let mut c = ClientData::new();
    assert_eq!(c.add_transaction(&tx(TransactionType::Deposit, 1, 1, Some(30000))), Ok(()));
    assert_eq!(c.add_transaction(&tx(TransactionType::Deposit, 1, 2, Some(12345))), Ok(()));
    assert_eq!(c.add_transaction(&tx(TransactionType::Dispute, 1, 2, None)), Ok(()));
    assert_eq!((c.available, c.held), (30000, 12345));
    assert!(c.history_entry(2).unwrap().under_dispute);
    assert_eq!(c.add_transaction(&tx(TransactionType::Resolve, 1, 2, None)), Ok(()));
    assert_eq!((c.available, c.held, c.locked), (42345, 0, false));
    assert!(!c.history_entry(2).unwrap().under_dispute);
}

#[test]
fn chargeback_after_dispute_removes_held_funds() {
    let mut c = ClientData::new();
    assert_eq!(c.add_transaction(&tx(TransactionType::Deposit, 1, 1, Some(30000))), Ok(()));
    assert_eq!(c.add_transaction(&tx(TransactionType::Dispute, 1, 1, None)), Ok(()));
    assert_eq!(c.add_transaction(&tx(TransactionType::Chargeback, 1, 1, None)), Ok(()));
    assert_eq!((c.available, c.held, c.locked), (0, 0, true));
    assert_eq!(c.total(), 0);
    assert!(!c.history_entry(1).unwrap().under_dispute);
}

#[test]
fn redispute_moves_funds_again() {
    let mut c = ClientData::new();
    assert_eq!(c.add_transaction(&tx(TransactionType::Deposit, 1, 1, Some(10000))), Ok(()));
    assert_eq!(c.add_transaction(&tx(TransactionType::Dispute, 1, 1, None)), Ok(()));
    assert_eq!(c.add_transaction(&tx(TransactionType::Dispute, 1, 1, None)), Ok(()));
    assert_eq!((c.available, c.held), (-10000, 20000));
}

#[test]
fn locked_stays_locked() {
    let mut tp = TransactionProcessor::new();
    let ts = [
        tx(TransactionType::Deposit, 2, 1, Some(10000)),
        tx(TransactionType::Dispute, 2, 1, None),
        tx(TransactionType::Chargeback, 2, 1, None),
        tx(TransactionType::Deposit, 2, 2, Some(10000)),
        tx(TransactionType::Dispute, 2, 2, None),
        tx(TransactionType::Resolve, 2, 2, None),
        tx(TransactionType::Withdrawal, 2, 3, Some(5000)),
    ];
    assert_eq!(apply_all(&mut tp, &ts), Ok(()));
    let a = tp.account(2).unwrap();
    assert!(a.locked);
    assert_eq!(a.available, 5000);
}

#[test]
fn rendered_rows_total_is_available_plus_held() {
    let mut tp = TransactionProcessor::new();
    let ts = [
        tx(TransactionType::Deposit, 4, 1, Some(10000)),
        tx(TransactionType::Deposit, 5, 2, Some(25000)),
        tx(TransactionType::Dispute, 5, 2, None),
        tx(TransactionType::Deposit, 4, 3, Some(1)),
    ];
    assert_eq!(apply_all(&mut tp, &ts), Ok(()));
    let rows = tp.render();
    assert_eq!(rows.len(), 2);
    assert_eq!(rows[0], AccountSummary { client: 4, available: 10001, held: 0, total: 10001, locked: false });
    assert_eq!(rows[1], AccountSummary { client: 5, available: 0, held: 25000, total: 25000, locked: false });
    for r in rows {
        assert_eq!(r.total, r.available + r.held);
    }
}

#[test]
fn amount_that_does_not_fit_is_refused() {
    let mut tp = TransactionProcessor::new();
    assert_eq!(tp.process_transaction(tx(TransactionType::Deposit, 1, 1, Some(i64::MAX))), Ok(()));
    assert!(!tp.can_process(&tx(TransactionType::Deposit, 1, 2, Some(1))));
    assert!(tp.can_process(&tx(TransactionType::Withdrawal, 1, 2, Some(1))));
}

#[test]
fn parse_amount_values() {
    assert_eq!(parse_amount(b"1"), Some(10000));
    assert_eq!(parse_amount(b"1.0"), Some(10000));
    assert_eq!(parse_amount(b"2.1234"), Some(21234));
    assert_eq!(parse_amount(b"0.5"), Some(5000));
    assert_eq!(parse_amount(b"1.0001"), Some(10001));
    assert_eq!(parse_amount(b"007.50"), Some(75000));
    assert_eq!(parse_amount(b"922337203685477.5807"), Some(i64::MAX));
    assert_eq!(parse_amount(b"922337203685477.5808"), None);
    assert_eq!(parse_amount(b"99999999999999999999"), None);
    assert_eq!(parse_amount(b""), None);
    assert_eq!(parse_amount(b"."), None);
    assert_eq!(parse_amount(b".5"), None);
    assert_eq!(parse_amount(b"1."), None);
    assert_eq!(parse_amount(b"1.12345"), None);
    assert_eq!(parse_amount(b"-1"), None);
    assert_eq!(parse_amount(b"1.2.3"), None);
    assert_eq!(parse_amount(b"1a"), None);
}

#[test]
fn format_amount_values() {
    assert_eq!(amount_text(-5000), "-0.5");
    assert_eq!(amount_text(20000), "2");
    assert_eq!(amount_text(15000), "1.5");
    assert_eq!(amount_text(5001), "0.5001");
    assert_eq!(amount_text(0), "0");
    assert_eq!(amount_text(1234500), "123.45");
    assert_eq!(amount_text(-10), "-0.001");
    assert_eq!(amount_text(i64::MAX), "922337203685477.5807");
    assert_eq!(amount_text(i64::MIN), "-922337203685477.5808");
}

#[test]
fn parse_transaction_type_ignores_case() {
    assert_eq!(parse_transaction_type(b"deposit"), Some(TransactionType::Deposit));
    assert_eq!(parse_transaction_type(b"Withdrawal"), Some(TransactionType::Withdrawal));
    assert_eq!(parse_transaction_type(b"DISPUTE"), Some(TransactionType::Dispute));
    assert_eq!(parse_transaction_type(b"resolve"), Some(TransactionType::Resolve));
    assert_eq!(parse_transaction_type(b"ChargeBack"), Some(TransactionType::Chargeback));
    assert_eq!(parse_transaction_type(b"refund"), None);
    assert_eq!(parse_transaction_type(b"deposits"), None);
    assert_eq!(parse_transaction_type(b""), None);
}

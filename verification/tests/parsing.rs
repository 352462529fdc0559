use payment_engine::account::Account;
use payment_engine::numbers::render_amount;
use payment_engine::seed::parse_accounts_csv;
use payment_engine::transaction::{Transaction, TransactionType};

#[test]
fn parse_deposit_basic() {
    let t = Transaction::new(String::from("deposit,1,1,100.0")).unwrap();
    assert_eq!(
        t,
        Transaction { client: 1, tx: 1, tx_type: TransactionType::Deposit(1_000_000) }
    );
}

#[test]
fn parse_withdrawal_basic() {
    let t = Transaction::new(String::from("withdrawal,7,9,2.5")).unwrap();
    assert_eq!(
        t,
        Transaction { client: 7, tx: 9, tx_type: TransactionType::WithDrawal(25_000) }
    );
}

#[test]
fn parse_strips_whitespace() {
    let t = Transaction::new(String::from(" deposit , 1 ,\t2 , 0.5 ")).unwrap();
    assert_eq!(
        t,
        Transaction { client: 1, tx: 2, tx_type: TransactionType::Deposit(5_000) }
    );
}

#[test]
fn parse_tag_is_case_sensitive() {
    assert!(Transaction::new(String::from("Deposit,1,1,1.0")).is_none());
}

#[test]
fn parse_unknown_tag() {
    assert!(Transaction::new(String::from("transfer,1,1,1.0")).is_none());
}

#[test]
fn parse_non_numeric_amount_dropped() {
    assert!(Transaction::new(String::from("deposit,1,3,abc")).is_none());
}

#[test]
fn parse_dispute_ignores_amount_field() {
    let t = Transaction::new(String::from("dispute,4,11,garbage")).unwrap();
    assert_eq!(t, Transaction { client: 4, tx: 11, tx_type: TransactionType::Dispute });
}

#[test]
fn parse_resolve_with_empty_amount() {
    let t = Transaction::new(String::from("resolve,4,11,")).unwrap();
    assert_eq!(t, Transaction { client: 4, tx: 11, tx_type: TransactionType::Resolve });
}

#[test]
fn parse_chargeback() {
    let t = Transaction::new(String::from("chargeback,4,11,")).unwrap();
    assert_eq!(t, Transaction { client: 4, tx: 11, tx_type: TransactionType::ChargeBack });
}

#[test]
fn parse_too_few_fields() {
    assert!(Transaction::new(String::from("dispute,1,1")).is_none());
}

#[test]
fn parse_extra_fields_ignored() {
    let t = Transaction::new(String::from("deposit,1,1,2.5,junk")).unwrap();
    assert_eq!(t.tx_type, TransactionType::Deposit(25_000));
}

#[test]
fn parse_client_id_too_wide() {
    assert!(Transaction::new(String::from("deposit,70000,1,1.0")).is_none());
}

#[test]
fn parse_tx_id_too_wide() {
    assert!(Transaction::new(String::from("deposit,1,4294967296,1.0")).is_none());
}

#[test]
fn parse_bad_client_id() {
    assert!(Transaction::new(String::from("deposit,x,1,1.0")).is_none());
}

#[test]
fn parse_amount_truncates_past_four_digits() {
    let t = Transaction::new(String::from("deposit,1,1,1.23456")).unwrap();
    assert_eq!(t.tx_type, TransactionType::Deposit(12_345));
}

#[test]
fn parse_amount_fraction_only() {
    let t = Transaction::new(String::from("deposit,1,1,.5")).unwrap();
    assert_eq!(t.tx_type, TransactionType::Deposit(5_000));
}

#[test]
fn parse_amount_trailing_dot() {
    let t = Transaction::new(String::from("deposit,1,1,2.")).unwrap();
    assert_eq!(t.tx_type, TransactionType::Deposit(20_000));
}

#[test]
fn parse_amount_lone_dot_rejected() {
    assert!(Transaction::new(String::from("deposit,1,1,.")).is_none());
}

#[test]
fn parse_negative_amount_rejected() {
    assert!(Transaction::new(String::from("deposit,1,1,-1.0")).is_none());
}

#[test]
fn parse_amount_two_dots_rejected() {
    assert!(Transaction::new(String::from("deposit,1,1,1.2.3")).is_none());
}

#[test]
fn parse_empty_line() {
    assert!(Transaction::new(String::new()).is_none());
}

#[test]
fn seed_rows_parse_and_bad_rows_drop() {
    let csv = String::from(
        "client,available,held,total,locked\n1,1.5,0.5,2.0,false\nbad,row\n2,1.0,0,1.0,true\n",
    );
    let accounts = parse_accounts_csv(csv);
    assert_eq!(
        accounts,
        vec![
            Account { client: 1, available: 15_000, held: 5_000, total: 20_000, locked: false },
            Account { client: 2, available: 10_000, held: 0, total: 10_000, locked: true },
        ]
    );
}

#[test]
fn seed_negative_balance() {
    let csv = String::from("client,available,held,total,locked\n3,-1.25,1.25,0,false\n");
    let accounts = parse_accounts_csv(csv);
    assert_eq!(
        accounts,
        vec![Account { client: 3, available: -12_500, held: 12_500, total: 0, locked: false }]
    );
}

#[test]
fn seed_empty_text_gives_no_accounts() {
    assert_eq!(parse_accounts_csv(String::new()), vec![]);
}

#[test]
fn seed_header_only_gives_no_accounts() {
    assert_eq!(
        parse_accounts_csv(String::from("client,available,held,total,locked")),
        vec![]
    );
}

#[test]
fn render_amount_four_fractional_digits() {
    let s = |units: i64| -> String { render_amount(units).into_iter().collect() };
    assert_eq!(s(12_345), "1.2345");
    assert_eq!(s(-12_345), "-1.2345");
    assert_eq!(s(0), "0.0000");
    assert_eq!(s(9_999), "0.9999");
    assert_eq!(s(1_000_000), "100.0000");
    assert_eq!(s(10_000), "1.0000");
}

#[test]
fn seed_wrong_field_count_dropped() {
    let csv = String::from("client,available,held,total,locked\n1,1.0,0,1.0,false,extra\n");
    assert_eq!(parse_accounts_csv(csv), vec![]);
}

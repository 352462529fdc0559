use payment_engine::account::{deposit, withdraw, Account};
use payment_engine::engine::{get_amount_from_tx_id, process_transaction, run_replay};
use payment_engine::transaction::{Transaction, TransactionType};

fn tx(client: u16, id: u32, tx_type: TransactionType) -> Transaction {
    Transaction { client, tx: id, tx_type }
}

fn replay(lines: &[&str]) -> (Vec<Account>, Vec<Transaction>) {
    let lines: Vec<String> = lines.iter().map(|l| String::from(*l)).collect();
    let mut accounts: Vec<Account> = Vec::new();
    let records = run_replay(&lines, &mut accounts);
    (accounts, records)
}

#[test]
fn fresh_account_is_zeroed() {
    let a = Account::new(9);
    assert_eq!(a, Account { client: 9, available: 0, held: 0, total: 0, locked: false });
}

#[test]
fn deposit_then_withdraw() {
    let (accounts, _) = replay(&[
        "type,client,tx,amount",
        "deposit,1,1,3.0",
        "withdrawal,1,2,1.0",
    ]);
    assert_eq!(
        accounts,
        vec![Account { client: 1, available: 20_000, held: 0, total: 20_000, locked: false }]
    );
}

#[test]
fn withdrawal_of_exactly_available_is_noop() {
    let (accounts, _) = replay(&[
        "type,client,tx,amount",
        "deposit,1,1,5.0",
        "withdrawal,1,2,5.0",
    ]);
    assert_eq!(accounts[0].available, 50_000);
    assert_eq!(accounts[0].total, 50_000);
}

#[test]
fn withdrawal_just_below_available_succeeds() {
    let (accounts, _) = replay(&[
        "type,client,tx,amount",
        "deposit,1,1,5.0",
        "withdrawal,1,2,4.9999",
    ]);
    assert_eq!(accounts[0].available, 1);
    assert_eq!(accounts[0].total, 1);
    assert_eq!(accounts[0].held, 0);
}

#[test]
fn dispute_resolve_round_trip() {
    let (mid, _) = replay(&["type,client,tx,amount", "deposit,1,1,100.0", "dispute,1,1,"]);
    assert_eq!(
        mid,
        vec![Account { client: 1, available: 0, held: 1_000_000, total: 1_000_000, locked: false }]
    );
    let (accounts, _) = replay(&[
        "type,client,tx,amount",
        "deposit,1,1,100.0",
        "dispute,1,1,",
        "resolve,1,1,",
    ]);
    assert_eq!(
        accounts,
        vec![Account { client: 1, available: 1_000_000, held: 0, total: 1_000_000, locked: false }]
    );
}

#[test]
fn chargeback_is_terminal_but_does_not_block() {
    let (accounts, _) = replay(&[
        "type,client,tx,amount",
        "deposit,1,7,50.0",
        "dispute,1,7,",
        "chargeback,1,7,",
    ]);
    assert_eq!(
        accounts,
        vec![Account { client: 1, available: 0, held: 0, total: 0, locked: true }]
    );
    // A locked account still accepts further transactions.
    let (after, _) = replay(&[
        "type,client,tx,amount",
        "deposit,1,7,50.0",
        "dispute,1,7,",
        "chargeback,1,7,",
        "deposit,1,8,1.0",
    ]);
    assert_eq!(
        after,
        vec![Account { client: 1, available: 10_000, held: 0, total: 10_000, locked: true }]
    );
}

#[test]
fn unknown_dispute_reference_changes_nothing() {
    let (accounts, records) = replay(&[
        "type,client,tx,amount",
        "deposit,1,1,10.0",
        "dispute,1,99,",
    ]);
    assert_eq!(
        accounts,
        vec![Account { client: 1, available: 100_000, held: 0, total: 100_000, locked: false }]
    );
    // The ineffective dispute is still recorded in the history.
    assert_eq!(records.len(), 2);
    assert_eq!(records[1], tx(1, 99, TransactionType::Dispute));
}

#[test]
fn malformed_row_is_dropped_and_replay_continues() {
    let (accounts, records) = replay(&[
        "type,client,tx,amount",
        "deposit,1,1,abc",
        "deposit,1,2,2.0",
    ]);
    assert_eq!(
        accounts,
        vec![Account { client: 1, available: 20_000, held: 0, total: 20_000, locked: false }]
    );
    assert_eq!(records.len(), 1);
}

#[test]
fn deposit_monotonicity_scenario() {
    let (accounts, _) = replay(&[
        "type,client,tx,amount",
        "deposit,1,1,1.5",
        "deposit,1,2,1.5",
        "deposit,1,3,1.5",
        "deposit,1,4,1.5",
        "deposit,1,5,1.5",
    ]);
    assert_eq!(accounts[0].available, 75_000);
    assert_eq!(accounts[0].total, 75_000);
    assert_eq!(accounts[0].held, 0);
}

#[test]
fn total_always_equals_available_plus_held() {
    let lines = [
        "type,client,tx,amount",
        "deposit,1,1,10.0",
        "deposit,2,2,4.5",
        "withdrawal,1,3,2.0",
        "dispute,1,1,",
        "resolve,1,1,",
        "dispute,2,2,",
        "chargeback,2,2,",
        "deposit,1,4,0.0001",
    ];
    // Check the invariant after every prefix of the log.
    for cut in 0..=lines.len() {
        let (accounts, _) = replay(&lines[..cut]);
        for a in accounts {
            assert_eq!(a.total, a.available + a.held);
        }
    }
}

#[test]
fn lookup_amount_is_idempotent() {
    let history = vec![
        tx(1, 1, TransactionType::Deposit(123)),
        tx(1, 2, TransactionType::Dispute),
        tx(2, 3, TransactionType::WithDrawal(77)),
    ];
    let first = get_amount_from_tx_id(&history, 3);
    let second = get_amount_from_tx_id(&history, 3);
    assert_eq!(first, Some(77));
    assert_eq!(second, first);
    assert_eq!(get_amount_from_tx_id(&history, 2), None);
    assert_eq!(get_amount_from_tx_id(&history, 2), None);
    assert_eq!(get_amount_from_tx_id(&history, 42), None);
}

#[test]
fn dispute_of_a_dispute_record_is_impossible() {
    // A recorded dispute under an id cannot serve as a dispute target:
    // the first history match for that id carries no amount.
    let (accounts, records) = replay(&[
        "type,client,tx,amount",
        "dispute,1,5,",
        "deposit,1,5,3.0",
        "dispute,1,5,",
    ]);
    // The first record under id 5 is the dispute itself, so the later
    // dispute resolves no amount and the deposit stays undisputed.
    assert_eq!(records.len(), 3);
    assert_eq!(
        accounts,
        vec![Account { client: 1, available: 30_000, held: 0, total: 30_000, locked: false }]
    );
}

#[test]
fn account_created_lazily_even_for_ineffective_withdrawal() {
    let (accounts, _) = replay(&["type,client,tx,amount", "withdrawal,5,1,1.0"]);
    assert_eq!(
        accounts,
        vec![Account { client: 5, available: 0, held: 0, total: 0, locked: false }]
    );
}

#[test]
fn one_account_per_client() {
    let (accounts, _) = replay(&[
        "type,client,tx,amount",
        "deposit,1,1,1.0",
        "deposit,2,2,2.0",
        "deposit,1,3,1.0",
    ]);
    assert_eq!(accounts.len(), 2);
    assert_eq!(accounts[0].client, 1);
    assert_eq!(accounts[0].available, 20_000);
    assert_eq!(accounts[1].client, 2);
}

#[test]
fn dispute_applies_to_the_disputing_client() {
    // The amount is recovered by transaction id alone; the balance change
    // lands on the account of the client named in the dispute record.
    let (accounts, _) = replay(&[
        "type,client,tx,amount",
        "deposit,1,1,100.0",
        "dispute,2,1,",
    ]);
    assert_eq!(accounts.len(), 2);
    assert_eq!(accounts[0].available, 1_000_000);
    assert_eq!(accounts[1].client, 2);
    assert_eq!(accounts[1].available, -1_000_000);
    assert_eq!(accounts[1].held, 1_000_000);
    assert_eq!(accounts[1].total, 0);
}

#[test]
fn process_transaction_direct_calls() {
    let mut accounts: Vec<Account> = Vec::new();
    let history: Vec<Transaction> = Vec::new();
    process_transaction(&tx(3, 1, TransactionType::Deposit(500)), &mut accounts, &history);
    assert_eq!(
        accounts,
        vec![Account { client: 3, available: 500, held: 0, total: 500, locked: false }]
    );
    process_transaction(&tx(3, 2, TransactionType::WithDrawal(200)), &mut accounts, &history);
    assert_eq!(accounts[0].available, 300);
    assert_eq!(accounts[0].total, 300);
}

#[test]
fn balance_ops_direct_calls() {
    let mut a = Account::new(1);
    deposit(&mut a, 1_000);
    assert_eq!(a.available, 1_000);
    withdraw(&mut a, 1_000);
    assert_eq!(a.available, 1_000, "withdrawing exactly available must not change funds");
    withdraw(&mut a, 999);
    assert_eq!(a.available, 1);
    assert_eq!(a.total, 1);
}

#[test]
fn replay_seeded_ledger() {
    let mut accounts = vec![Account {
        client: 1,
        available: 10_000,
        held: 0,
        total: 10_000,
        locked: false,
    }];
    let lines = vec![String::from("deposit,1,1,1.0")];
    let _ = run_replay(&lines, &mut accounts);
    assert_eq!(accounts[0].available, 20_000);
    assert_eq!(accounts[0].total, 20_000);
}

//! The replay engine: consumes transactions in arrival order, resolves
//! dispute-family references against the history of previously accepted
//! transactions, and applies the balance rules to the ledger.
//!
//! The ledger is a vector of accounts, one per client, in the order the
//! clients were first seen; an account is created lazily on first
//! reference. The history is append-only and is consulted by identifier
//! to recover the amount of a referenced deposit or withdrawal.

use vstd::prelude::*;
use crate::account::{
    chargeback, chargeback_spec, deposit, deposit_spec, dispute, dispute_spec, fresh_account,
    resolve, resolve_spec, withdraw, withdraw_spec, Account,
};
use crate::transaction::{parse_record, Transaction, TransactionType};

verus! {

/// The index of the first account belonging to `client`, or -1 if the
/// ledger has none.
pub open spec fn find_client_idx(accounts: Seq<Account>, client: u16) -> int
    decreases accounts.len(),
{
    if accounts.len() == 0 {
        -1
    } else if accounts[0].client == client {
        0
    } else {
        let r = find_client_idx(accounts.subrange(1, accounts.len() as int), client);
        if r == -1 {
            -1
        } else {
            r + 1
        }
    }
}

/// The amount of the first transaction recorded under `tx_id`, if that
/// transaction is a deposit or a withdrawal; nothing when the identifier
/// is unknown or the first match carries no amount.
pub open spec fn lookup_amount_spec(transactions: Seq<Transaction>, tx_id: u32) -> Option<i64>
    decreases transactions.len(),
{
    if transactions.len() == 0 {
        None
    } else if transactions[0].tx == tx_id {
        match transactions[0].tx_type {
            TransactionType::Deposit(amount) => Some(amount),
            TransactionType::WithDrawal(amount) => Some(amount),
            _ => None,
        }
    } else {
        lookup_amount_spec(transactions.subrange(1, transactions.len() as int), tx_id)
    }
}

/// Returns the amount of the first recorded transaction with the given
/// identifier, for deposits and withdrawals; `None` for dispute-family
/// records and unknown identifiers. A pure function of its arguments:
/// repeated calls on the same history return the same value.
pub fn get_amount_from_tx_id(transactions: &Vec<Transaction>, tx_id: u32) -> (r: Option<i64>)
    ensures
        r == lookup_amount_spec(transactions@, tx_id),
{
    let n = transactions.len();
    let mut i: usize = 0;
    proof {
        assert(transactions@.subrange(0, n as int) =~= transactions@);
    }
    while i < n
        invariant
            i <= n,
            n == transactions@.len(),
            lookup_amount_spec(transactions@, tx_id) == lookup_amount_spec(
                transactions@.subrange(i as int, n as int),
                tx_id,
            ),
        decreases n - i,
    {
        let t = &transactions[i];
        proof {
            let tail = transactions@.subrange(i as int, n as int);
            assert(tail[0] == transactions@[i as int]);
            assert(tail.subrange(1, tail.len() as int) =~= transactions@.subrange(
                i as int + 1,
                n as int,
            ));
        }
        if t.tx == tx_id {
            return match t.tx_type {
                TransactionType::Deposit(amount) => Some(amount),
                TransactionType::WithDrawal(amount) => Some(amount),
                _ => None,
            };
        }
        i += 1;
    }
    None
}

/// The account after one transaction is applied to it. Dispute-family
/// transactions act only when the referenced identifier resolves to an
/// amount in the history; otherwise the account is left unchanged.
pub open spec fn apply_tx_spec(a: Account, t: Transaction, history: Seq<Transaction>) -> Account {
    match t.tx_type {
        TransactionType::Deposit(amount) => deposit_spec(a, amount),
        TransactionType::WithDrawal(amount) => withdraw_spec(a, amount),
        TransactionType::Dispute => match lookup_amount_spec(history, t.tx) {
            Some(amount) => dispute_spec(a, amount),
            None => a,
        },
        TransactionType::Resolve => match lookup_amount_spec(history, t.tx) {
            Some(amount) => resolve_spec(a, amount),
            None => a,
        },
        TransactionType::ChargeBack => match lookup_amount_spec(history, t.tx) {
            Some(amount) => chargeback_spec(a, amount),
            None => a,
        },
    }
}

/// The ledger after one transaction: the rule is applied to the client's
/// account, which is created fresh at the end of the ledger when the
/// client has not been seen before.
pub open spec fn process_spec(
    accounts: Seq<Account>,
    t: Transaction,
    history: Seq<Transaction>,
) -> Seq<Account> {
    let i = find_client_idx(accounts, t.client);
    if i >= 0 {
        accounts.update(i, apply_tx_spec(accounts[i], t, history))
    } else {
        accounts.push(apply_tx_spec(fresh_account(t.client), t, history))
    }
}

/// Applies one transaction to the ledger, resolving dispute-family
/// references against `transactions`, the history of records accepted
/// before this one. Every account that satisfied the balance invariant
/// still satisfies it afterwards.
pub fn process_transaction(
    transaction: &Transaction,
    accounts: &mut Vec<Account>,
    transactions: &Vec<Transaction>,
)
    ensures
        final(accounts)@ == process_spec(old(accounts)@, *transaction, transactions@),
        (forall|j: int| 0 <= j < old(accounts)@.len() ==> old(accounts)@[j].balanced())
            ==> (forall|j: int|
            0 <= j < final(accounts)@.len() ==> final(accounts)@[j].balanced()),
{
    let ghost orig = accounts@;
    let n = accounts.len();
    let mut idx: usize = n;
    let mut i: usize = 0;
    while i < n && accounts[i].client != transaction.client
        invariant
            i <= n,
            n == accounts@.len(),
            accounts@ == orig,
            forall|j: int| 0 <= j < i ==> accounts@[j].client != transaction.client,
        decreases n - i,
    {
        i += 1;
    }
    proof {
        lemma_find_idx_agrees(accounts@, transaction.client, i as int);
    }
    if i < n {
        idx = i;
    } else {
        accounts.push(Account::new(transaction.client));
        idx = n;
    }
    let amount_opt: Option<i64> = match transaction.tx_type {
        TransactionType::Deposit(amount) => Some(amount),
        TransactionType::WithDrawal(amount) => Some(amount),
        _ => get_amount_from_tx_id(transactions, transaction.tx),
    };
    let account = &mut accounts[idx];
    match transaction.tx_type {
        TransactionType::Deposit(amount) => deposit(account, amount),
        TransactionType::WithDrawal(amount) => withdraw(account, amount),
        TransactionType::Dispute => {
            if let Some(amount) = amount_opt {
                dispute(account, amount);
            }
        },
        TransactionType::Resolve => {
            if let Some(amount) = amount_opt {
                resolve(account, amount);
            }
        },
        TransactionType::ChargeBack => {
            if let Some(amount) = amount_opt {
                chargeback(account, amount);
            }
        },
    }
    proof {
        let found = find_client_idx(orig, transaction.client) >= 0;
        let base = if found {
            orig[idx as int]
        } else {
            fresh_account(transaction.client)
        };
        let applied = apply_tx_spec(base, *transaction, transactions@);
        if found {
            assert(accounts@ =~= orig.update(idx as int, applied));
        } else {
            assert(accounts@ =~= orig.push(applied));
        }
        if forall|j: int| 0 <= j < orig.len() ==> orig[j].balanced() {
            assert(base.balanced());
            crate::account::lemma_rules_preserve_balance(
                base,
                match amount_opt {
                    Some(a) => a,
                    None => 0,
                },
            );
            assert(applied.balanced());
            assert(forall|j: int| 0 <= j < accounts@.len() ==> accounts@[j].balanced());
        }
    }
}

/// A scan that stops at the first account of `client`, or runs off the
/// end, lands exactly where `find_client_idx` points.
proof fn lemma_find_idx_agrees(accounts: Seq<Account>, client: u16, i: int)
    requires
        0 <= i <= accounts.len(),
        forall|j: int| 0 <= j < i ==> accounts[j].client != client,
        i < accounts.len() ==> accounts[i].client == client,
    ensures
        i < accounts.len() ==> find_client_idx(accounts, client) == i,
        i == accounts.len() ==> find_client_idx(accounts, client) == -1,
    decreases accounts.len(),
{
    if accounts.len() > 0 && accounts[0].client != client {
        assert(forall|j: int|
            0 <= j < accounts.len() - 1 ==> accounts.subrange(1, accounts.len() as int)[j]
                == accounts[j + 1]);
        lemma_find_idx_agrees(accounts.subrange(1, accounts.len() as int), client, i - 1);
    }
}

/// The ledger and history after replaying a sequence of raw records in
/// order: records that parse are processed against the ledger and then
/// appended to the history; records that do not parse are dropped.
pub open spec fn replay_spec(
    lines: Seq<Seq<char>>,
    accounts: Seq<Account>,
    history: Seq<Transaction>,
) -> (Seq<Account>, Seq<Transaction>)
    decreases lines.len(),
{
    if lines.len() == 0 {
        (accounts, history)
    } else {
        match parse_record(lines[0]) {
            Some(t) => replay_spec(
                lines.subrange(1, lines.len() as int),
                process_spec(accounts, t, history),
                history.push(t),
            ),
            None => replay_spec(lines.subrange(1, lines.len() as int), accounts, history),
        }
    }
}

/// Replays raw records in order against the ledger, returning the
/// history of transactions that were accepted. Malformed records are
/// dropped silently; accepted ones are recorded even when their effect
/// was skipped.
pub fn run_replay(lines: &Vec<String>, accounts: &mut Vec<Account>) -> (records: Vec<Transaction>)
    ensures
        (final(accounts)@, records@) == replay_spec(lines.deep_view(), old(accounts)@, Seq::empty()),
        (forall|j: int| 0 <= j < old(accounts)@.len() ==> old(accounts)@[j].balanced())
            ==> (forall|j: int|
            0 <= j < final(accounts)@.len() ==> final(accounts)@[j].balanced()),
{
    let mut records: Vec<Transaction> = Vec::new();
    let n = lines.len();
    let mut i: usize = 0;
    proof {
        assert(lines.deep_view().len() == n);
        assert(lines.deep_view().subrange(0, n as int) =~~= lines.deep_view());
    }
    while i < n
        invariant
            i <= n,
            n == lines@.len(),
            lines.deep_view().len() == n,
            replay_spec(lines.deep_view(), old(accounts)@, Seq::empty()) == replay_spec(
                lines.deep_view().subrange(i as int, n as int),
                accounts@,
                records@,
            ),
            (forall|j: int| 0 <= j < old(accounts)@.len() ==> old(accounts)@[j].balanced())
                ==> (forall|j: int| 0 <= j < accounts@.len() ==> accounts@[j].balanced()),
        decreases n - i,
    {
        proof {
            let dv = lines.deep_view();
            let tail = dv.subrange(i as int, n as int);
            assert(tail[0] == dv[i as int]);
            assert(dv[i as int] == lines@[i as int]@);
            assert(tail.subrange(1, tail.len() as int) =~~= dv.subrange(i as int + 1, n as int));
        }
        let line = &lines[i];
        if let Some(t) = Transaction::new(line.clone()) {
            process_transaction(&t, accounts, &records);
            records.push(t);
        }
        i += 1;
    }
    proof {
        assert(lines.deep_view().subrange(n as int, n as int) =~~= Seq::<Seq<char>>::empty());
    }
    records
}

} // verus!

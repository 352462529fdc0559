//! Client accounts and the balance-mutation rules applied during replay.
//!
//! An account holds fixed-point balances in ten-thousandths of a currency
//! unit. The invariant `total == available + held` is preserved by every
//! operation. Operations whose arithmetic would leave the `i64` range are
//! skipped, leaving the account unchanged.

use vstd::prelude::*;

verus! {

/// One client account: available, held and total funds plus a lock flag.
/// All balances are in ten-thousandths (four fractional decimal digits).
#[derive(Clone, Copy, Debug, PartialEq, Eq, Structural)]
pub struct Account {
    pub client: u16,
    pub available: i64,
    pub held: i64,
    pub total: i64,
    pub locked: bool,
}

/// Whether a mathematical integer fits in an `i64`.
pub open spec fn fits_i64(x: int) -> bool {
    i64::MIN <= x <= i64::MAX
}

/// The state of a newly created account: zero funds, not locked.
pub open spec fn fresh_account(client: u16) -> Account {
    Account { client, available: 0, held: 0, total: 0, locked: false }
}

impl Account {
    /// The account invariant: total funds are the available plus the held.
    pub open spec fn balanced(self) -> bool {
        self.total == self.available + self.held
    }

    /// A fresh account has zero funds, zero held, and is not locked.
    pub fn new(client: u16) -> (a: Account)
        ensures
            a == fresh_account(client),
    {
        Account { client, available: 0, held: 0, total: 0, locked: false }
    }
}

/// The account after a deposit: available and total grow by `amount`,
/// unless either sum leaves the `i64` range, in which case nothing changes.
pub open spec fn deposit_spec(a: Account, amount: i64) -> Account {
    if fits_i64(a.available + amount) && fits_i64(a.total + amount) {
        Account {
            available: (a.available + amount) as i64,
            total: (a.total + amount) as i64,
            ..a
        }
    } else {
        a
    }
}

/// The account after a withdrawal: available and total shrink by `amount`
/// when `amount` is strictly below the available funds; otherwise, or when
/// either difference leaves the `i64` range, nothing changes.
pub open spec fn withdraw_spec(a: Account, amount: i64) -> Account {
    if amount < a.available && fits_i64(a.available - amount) && fits_i64(a.total - amount) {
        Account {
            available: (a.available - amount) as i64,
            total: (a.total - amount) as i64,
            ..a
        }
    } else {
        a
    }
}

/// The account after a dispute: `amount` moves from available to held,
/// total unchanged; skipped if either new balance leaves the `i64` range.
pub open spec fn dispute_spec(a: Account, amount: i64) -> Account {
    if fits_i64(a.available - amount) && fits_i64(a.held + amount) {
        Account {
            available: (a.available - amount) as i64,
            held: (a.held + amount) as i64,
            ..a
        }
    } else {
        a
    }
}

/// The account after a resolve: `amount` moves back from held to available,
/// total unchanged; skipped if either new balance leaves the `i64` range.
pub open spec fn resolve_spec(a: Account, amount: i64) -> Account {
    if fits_i64(a.available + amount) && fits_i64(a.held - amount) {
        Account {
            available: (a.available + amount) as i64,
            held: (a.held - amount) as i64,
            ..a
        }
    } else {
        a
    }
}

/// The account after a chargeback: `amount` leaves both held and total and
/// the account is locked; skipped (and left unlocked) if either difference
/// leaves the `i64` range.
pub open spec fn chargeback_spec(a: Account, amount: i64) -> Account {
    if fits_i64(a.held - amount) && fits_i64(a.total - amount) {
        Account {
            held: (a.held - amount) as i64,
            total: (a.total - amount) as i64,
            locked: true,
            ..a
        }
    } else {
        a
    }
}

/// A deposit increases available and total funds by the given amount.
pub fn deposit(account: &mut Account, amount: i64)
    ensures
        *final(account) == deposit_spec(*old(account), amount),
{
    match (account.available.checked_add(amount), account.total.checked_add(amount)) {
        (Some(av), Some(t)) => {
            account.available = av;
            account.total = t;
        },
        _ => {},
    }
}

/// A withdrawal decreases available and total funds by the given amount.
/// If the amount is not strictly below the available funds nothing happens.
pub fn withdraw(account: &mut Account, amount: i64)
    ensures
        *final(account) == withdraw_spec(*old(account), amount),
{
    if amount < account.available {
        match (account.available.checked_sub(amount), account.total.checked_sub(amount)) {
            (Some(av), Some(t)) => {
                account.available = av;
                account.total = t;
            },
            _ => {},
        }
    }
}

/// A dispute takes the given amount from available funds and holds it.
/// Total funds remain the same.
pub fn dispute(account: &mut Account, amount: i64)
    ensures
        *final(account) == dispute_spec(*old(account), amount),
{
    match (account.available.checked_sub(amount), account.held.checked_add(amount)) {
        (Some(av), Some(h)) => {
            account.available = av;
            account.held = h;
        },
        _ => {},
    }
}

/// A resolve puts the given held amount back into available funds.
/// Total funds remain the same.
pub fn resolve(account: &mut Account, amount: i64)
    ensures
        *final(account) == resolve_spec(*old(account), amount),
{
    match (account.available.checked_add(amount), account.held.checked_sub(amount)) {
        (Some(av), Some(h)) => {
            account.available = av;
            account.held = h;
        },
        _ => {},
    }
}

/// A chargeback takes the disputed amount from held and total funds
/// and locks the account.
pub fn chargeback(account: &mut Account, amount: i64)
    ensures
        *final(account) == chargeback_spec(*old(account), amount),
{
    match (account.held.checked_sub(amount), account.total.checked_sub(amount)) {
        (Some(h), Some(t)) => {
            account.held = h;
            account.total = t;
            account.locked = true;
        },
        _ => {},
    }
}

/// Every balance rule keeps the account invariant: when `total` equals
/// `available + held` before an operation, it does so after it as well.
pub proof fn lemma_rules_preserve_balance(a: Account, amount: i64)
    requires
        a.balanced(),
    ensures
        deposit_spec(a, amount).balanced(),
        withdraw_spec(a, amount).balanced(),
        dispute_spec(a, amount).balanced(),
        resolve_spec(a, amount).balanced(),
        chargeback_spec(a, amount).balanced(),
{
}

} // verus!

//! General properties of the balance rules, stated and proved over an
//! arithmetic model of an account's funds with unbounded integers. The
//! bridge lemmas tie each rule on `i64` balances to its model: whenever
//! the rule's range guards hold, the two agree.

use vstd::prelude::*;
use crate::account::{
    chargeback_spec, deposit_spec, dispute_spec, fits_i64, resolve_spec, withdraw_spec, Account,
};

verus! {

/// Arithmetic model of an account's funds, over unbounded integers.
#[verifier::ext_equal]
pub ghost struct Balances {
    pub available: int,
    pub held: int,
    pub total: int,
    pub locked: bool,
}

/// The funds of an account, as unbounded integers.
pub open spec fn bal_of(a: Account) -> Balances {
    Balances {
        available: a.available as int,
        held: a.held as int,
        total: a.total as int,
        locked: a.locked,
    }
}

/// A deposit in the model: available and total grow by `m`.
pub open spec fn deposit_bal(b: Balances, m: int) -> Balances {
    Balances { available: b.available + m, total: b.total + m, ..b }
}

/// A withdrawal in the model: applied only when `m` is strictly below
/// the available funds.
pub open spec fn withdraw_bal(b: Balances, m: int) -> Balances {
    if m < b.available {
        Balances { available: b.available - m, total: b.total - m, ..b }
    } else {
        b
    }
}

/// A dispute in the model: `m` moves from available to held.
pub open spec fn dispute_bal(b: Balances, m: int) -> Balances {
    Balances { available: b.available - m, held: b.held + m, ..b }
}

/// A resolve in the model: `m` moves back from held to available.
pub open spec fn resolve_bal(b: Balances, m: int) -> Balances {
    Balances { available: b.available + m, held: b.held - m, ..b }
}

/// A chargeback in the model: `m` leaves held and total, and the account
/// is locked.
pub open spec fn chargeback_bal(b: Balances, m: int) -> Balances {
    Balances { held: b.held - m, total: b.total - m, locked: true, ..b }
}

/// When a deposit's range guards hold, the `i64` rule agrees with the
/// model.
pub proof fn lemma_deposit_model(a: Account, m: i64)
    requires
        fits_i64(a.available + m),
        fits_i64(a.total + m),
    ensures
        bal_of(deposit_spec(a, m)) == deposit_bal(bal_of(a), m as int),
{
    assert(bal_of(deposit_spec(a, m)) =~= deposit_bal(bal_of(a), m as int));
}

/// When a withdrawal's range guards hold, the `i64` rule agrees with the
/// model.
pub proof fn lemma_withdraw_model(a: Account, m: i64)
    requires
        fits_i64(a.available - m),
        fits_i64(a.total - m),
    ensures
        bal_of(withdraw_spec(a, m)) == withdraw_bal(bal_of(a), m as int),
{
    assert(bal_of(withdraw_spec(a, m)) =~= withdraw_bal(bal_of(a), m as int));
}

/// When a dispute's range guards hold, the `i64` rule agrees with the
/// model.
pub proof fn lemma_dispute_model(a: Account, m: i64)
    requires
        fits_i64(a.available - m),
        fits_i64(a.held + m),
    ensures
        bal_of(dispute_spec(a, m)) == dispute_bal(bal_of(a), m as int),
{
    assert(bal_of(dispute_spec(a, m)) =~= dispute_bal(bal_of(a), m as int));
}

/// When a resolve's range guards hold, the `i64` rule agrees with the
/// model.
pub proof fn lemma_resolve_model(a: Account, m: i64)
    requires
        fits_i64(a.available + m),
        fits_i64(a.held - m),
    ensures
        bal_of(resolve_spec(a, m)) == resolve_bal(bal_of(a), m as int),
{
    assert(bal_of(resolve_spec(a, m)) =~= resolve_bal(bal_of(a), m as int));
}

/// When a chargeback's range guards hold, the `i64` rule agrees with the
/// model.
pub proof fn lemma_chargeback_model(a: Account, m: i64)
    requires
        fits_i64(a.held - m),
        fits_i64(a.total - m),
    ensures
        bal_of(chargeback_spec(a, m)) == chargeback_bal(bal_of(a), m as int),
{
    assert(bal_of(chargeback_spec(a, m)) =~= chargeback_bal(bal_of(a), m as int));
}

/// The funds after `n` deposits of `m` each.
pub open spec fn deposits_bal(b: Balances, m: int, n: nat) -> Balances
    decreases n,
{
    if n == 0 {
        b
    } else {
        deposit_bal(deposits_bal(b, m, (n - 1) as nat), m)
    }
}

/// Deposit monotonicity: a sequence of `n` deposits of amount `m` to a
/// fresh account yields `available == total == n * m` and `held == 0`.
pub proof fn lemma_deposit_monotonic(b: Balances, m: int, n: nat)
    requires
        b.available == 0,
        b.held == 0,
        b.total == 0,
    ensures
        deposits_bal(b, m, n).available == n * m,
        deposits_bal(b, m, n).total == n * m,
        deposits_bal(b, m, n).held == 0,
    decreases n,
{
    if n > 0 {
        lemma_deposit_monotonic(b, m, (n - 1) as nat);
        assert((n - 1) * m + m == n * m) by (nonlinear_arith);
    }
}

/// Withdrawal boundary: withdrawing exactly the available funds is a
/// no-op, while withdrawing one ten-thousandth less succeeds and leaves
/// exactly one ten-thousandth available.
pub proof fn lemma_withdraw_boundary(b: Balances)
    requires
        b.available >= 1,
    ensures
        withdraw_bal(b, b.available) == b,
        withdraw_bal(b, b.available - 1) == (Balances {
            available: 1,
            total: b.total - b.available + 1,
            ..b
        }),
{
    assert(withdraw_bal(b, b.available - 1) =~= (Balances {
        available: 1,
        total: b.total - b.available + 1,
        ..b
    }));
}

/// Withdrawing exactly the available funds leaves the account unchanged,
/// also at the `i64` level.
pub proof fn lemma_withdraw_exact_noop(a: Account)
    ensures
        withdraw_spec(a, a.available) == a,
{
}

/// Dispute/resolve round trip: disputing an amount and then resolving it
/// returns the funds to their previous split, with total unchanged
/// throughout.
pub proof fn lemma_dispute_resolve_round_trip(b: Balances, m: int)
    ensures
        resolve_bal(dispute_bal(b, m), m) == b,
        dispute_bal(b, m).total == b.total,
        resolve_bal(dispute_bal(b, m), m).total == b.total,
{
    assert(resolve_bal(dispute_bal(b, m), m) =~= b);
}

} // verus!

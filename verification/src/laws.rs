//! What holds of the ledger whatever the banks, the users and the amounts.

use vstd::prelude::*;
use crate::address::Address;
use crate::errors::ErrorCode;
use crate::instructions::{borrow_accepted, borrow_error, Borrow};
use crate::math::{lemma_mul_div_floor_bounds, lemma_mul_div_floor_le, lemma_mul_div_floor_unique};
use crate::policy::{borrow_fits, max_borrowable_fits, max_borrowable_spec};
use crate::registry::{total_principal, Lending, Side};
use crate::shares::{
    bank_after_deposit, bank_after_withdraw, deposit_fits, position_after_deposit,
    position_after_withdraw, shares_for_deposit_spec, shares_for_withdraw_spec, withdraw_allowed,
    withdraw_fits,
};
use crate::state::{Bank, Position};

verus! {

/// The share price of `after` is at least that of `before`: the ratio of
/// deposits to shares, compared without division.
pub open spec fn share_price_kept(before: Bank, after: Bank) -> bool {
    after.total_deposits * before.total_deposit_shares >= before.total_deposits
        * after.total_deposit_shares
}

/// The share price of `after` is below that of `before` by less than the
/// rounding of one share: had one share more been removed, the price would
/// not have fallen.
pub open spec fn share_price_within_one_share(before: Bank, after: Bank) -> bool {
    after.total_deposits * before.total_deposit_shares > before.total_deposits * (
    after.total_deposit_shares - 1)
}

/// A deposit never lowers the share price of a bank that has shares out.
pub proof fn lemma_deposit_keeps_share_price(bank: Bank, amount: u64)
    requires
        bank.wf(),
        bank.total_deposit_shares > 0,
        bank.total_deposits + amount <= u64::MAX,
        bank.total_deposit_shares + shares_for_deposit_spec(bank, amount) <= u64::MAX,
    ensures
        share_price_kept(bank, bank_after_deposit(bank, amount)),
{
    let t = bank.total_deposits as nat;
    let s = bank.total_deposit_shares as nat;
    let a = amount as nat;
    let q = shares_for_deposit_spec(bank, amount);
    lemma_mul_div_floor_bounds(a, s, t);
    assert((t + a) * s >= t * (s + q)) by (nonlinear_arith)
        requires
            q * t <= a * s,
    ;
}

/// The first deposit into an empty bank sets the share price to one.
pub proof fn lemma_first_deposit_at_par(bank: Bank, amount: u64)
    requires
        bank.wf(),
        bank.total_deposit_shares == 0,
    ensures
        bank_after_deposit(bank, amount).total_deposits == amount,
        bank_after_deposit(bank, amount).total_deposit_shares == amount,
{
}

/// A withdrawal lowers the share price by less than the rounding of one share.
pub proof fn lemma_withdraw_keeps_share_price_within_one_share(bank: Bank, amount: u64)
    requires
        bank.wf(),
        0 < amount <= bank.total_deposits,
    ensures
        shares_for_withdraw_spec(bank, amount) <= bank.total_deposit_shares,
        share_price_within_one_share(bank, bank_after_withdraw(bank, amount)),
{
    let t = bank.total_deposits as nat;
    let s = bank.total_deposit_shares as nat;
    let a = amount as nat;
    let q = shares_for_withdraw_spec(bank, amount);
    lemma_mul_div_floor_bounds(a, s, t);
    lemma_mul_div_floor_le(a, s, t);
    assert((t - a) * s > t * (s - q - 1)) by (nonlinear_arith)
        requires
            a * s < (q + 1) * t,
    ;
}

/// A withdrawal in which the shares removed are the exact proportion, with
/// nothing rounded off, keeps the share price.
pub proof fn lemma_exact_withdraw_keeps_share_price(bank: Bank, amount: u64)
    requires
        bank.wf(),
        0 < amount <= bank.total_deposits,
        shares_for_withdraw_spec(bank, amount) * bank.total_deposits == amount
            * bank.total_deposit_shares,
    ensures
        share_price_kept(bank, bank_after_withdraw(bank, amount)),
{
    let t = bank.total_deposits as nat;
    let s = bank.total_deposit_shares as nat;
    let a = amount as nat;
    let q = shares_for_withdraw_spec(bank, amount);
    lemma_mul_div_floor_le(a, s, t);
    assert((t - a) * s >= t * (s - q)) by (nonlinear_arith)
        requires
            q * t == a * s,
    ;
}

/// Conservation: in a consistent store, what all users together hold in a
/// bank, and what they owe it, is never above the bank's totals.
pub proof fn lemma_conservation(state: Lending, asset: Address)
    requires
        state.wf(),
        state.has_bank(asset),
    ensures
        total_principal(state.users@, asset, Side::Deposits) <= state.bank(asset).total_deposits,
        total_principal(state.users@, asset, Side::Borrows) <= state.bank(asset).total_borrows,
{
    let bank = state.bank(asset);
    assert(bank.asset_id == asset);
    assert(total_principal(state.users@, bank.asset_id, Side::Deposits)
        <= crate::registry::bank_total(bank, Side::Deposits));
    assert(total_principal(state.users@, bank.asset_id, Side::Borrows)
        <= crate::registry::bank_total(bank, Side::Borrows));
}

/// No balance goes below zero: a deposit that fits adds exactly, and a
/// withdrawal that is allowed and fits subtracts exactly, with every
/// result in the 64-bit range.
pub proof fn lemma_balances_exact(bank: Bank, position: Position, amount: u64)
    requires
        bank.wf(),
    ensures
        deposit_fits(bank, position, amount) ==> {
            let shares = shares_for_deposit_spec(bank, amount);
            let new_bank = bank_after_deposit(bank, amount);
            let new_position = position_after_deposit(bank, position, amount);
            &&& new_bank.total_deposits == bank.total_deposits + amount
            &&& new_bank.total_deposit_shares == bank.total_deposit_shares + shares
            &&& new_position.deposited_amount == position.deposited_amount + amount
            &&& new_position.deposited_shares == position.deposited_shares + shares
        },
        withdraw_allowed(position, amount) && withdraw_fits(bank, position, amount) ==> {
            let shares = shares_for_withdraw_spec(bank, amount);
            let new_bank = bank_after_withdraw(bank, amount);
            let new_position = position_after_withdraw(bank, position, amount);
            &&& new_bank.total_deposits == bank.total_deposits - amount >= 0
            &&& new_bank.total_deposit_shares == bank.total_deposit_shares - shares >= 0
            &&& new_position.deposited_amount == position.deposited_amount - amount >= 0
            &&& new_position.deposited_shares == position.deposited_shares - shares >= 0
        },
{
    if withdraw_allowed(position, amount) && withdraw_fits(bank, position, amount) {
        lemma_mul_div_floor_le(
            amount as nat,
            bank.total_deposit_shares as nat,
            bank.total_deposits as nat,
        );
    }
}

/// Round trip: a deposit that is followed at once by a withdrawal of the
/// same amount is accepted, removes exactly the shares that the deposit
/// issued, and leaves the bank and the position as they were.
pub proof fn lemma_deposit_withdraw_round_trip(bank: Bank, position: Position, amount: u64)
    requires
        bank.wf(),
        amount > 0,
        deposit_fits(bank, position, amount),
    ensures
        ({
            let bank1 = bank_after_deposit(bank, amount);
            let position1 = position_after_deposit(bank, position, amount);
            &&& bank1.wf()
            &&& withdraw_allowed(position1, amount)
            &&& withdraw_fits(bank1, position1, amount)
            &&& shares_for_withdraw_spec(bank1, amount) == shares_for_deposit_spec(bank, amount)
            &&& bank_after_withdraw(bank1, amount) == bank
            &&& position_after_withdraw(bank1, position1, amount) == position
        }),
{
    let t = bank.total_deposits as nat;
    let s = bank.total_deposit_shares as nat;
    let a = amount as nat;
    let q = shares_for_deposit_spec(bank, amount);
    if s == 0 {
        assert(q * (t + a) <= a * (s + q) && a * (s + q) < (q + 1) * (t + a)) by (nonlinear_arith)
            requires
                s == 0,
                t == 0,
                q == a,
                a > 0,
        ;
    } else {
        lemma_mul_div_floor_bounds(a, s, t);
        assert(q * (t + a) <= a * (s + q) && a * (s + q) < (q + 1) * (t + a)) by (nonlinear_arith)
            requires
                q * t <= a * s,
                a * s < (q + 1) * t,
                a > 0,
        ;
    }
    lemma_mul_div_floor_unique(a, s + q, t + a, q);
}

/// A movement of funds into or out of a bank.
pub enum Movement {
    /// A deposit of the amount.
    Deposit(u64),
    /// A withdrawal of the amount.
    Withdraw(u64),
}

/// The bank after one movement: a deposit that is positive and fits, or a
/// withdrawal that is positive and within the bank's deposits, changes the
/// totals; any other movement is refused and changes nothing.
pub open spec fn bank_step(bank: Bank, movement: Movement) -> Bank {
    match movement {
        Movement::Deposit(amount) => if amount > 0 && bank.total_deposits + amount <= u64::MAX
            && bank.total_deposit_shares + shares_for_deposit_spec(bank, amount) <= u64::MAX {
            bank_after_deposit(bank, amount)
        } else {
            bank
        },
        Movement::Withdraw(amount) => if 0 < amount <= bank.total_deposits {
            bank_after_withdraw(bank, amount)
        } else {
            bank
        },
    }
}

/// The bank after a sequence of movements, in order.
pub open spec fn bank_run(bank: Bank, movements: Seq<Movement>) -> Bank
    decreases movements.len(),
{
    if movements.len() == 0 {
        bank
    } else {
        bank_step(bank_run(bank, movements.drop_last()), movements.last())
    }
}

/// Every movement keeps a bank well formed.
pub proof fn lemma_step_keeps_wf(bank: Bank, movement: Movement)
    requires
        bank.wf(),
    ensures
        bank_step(bank, movement).wf(),
{
    match movement {
        Movement::Deposit(amount) => {},
        Movement::Withdraw(amount) => {
            if 0 < amount <= bank.total_deposits {
                lemma_mul_div_floor_le(
                    amount as nat,
                    bank.total_deposit_shares as nat,
                    bank.total_deposits as nat,
                );
            }
        },
    }
}

/// A share price that a second bank keeps from a first, and a third from
/// the second, the third keeps from the first.
pub proof fn lemma_share_price_kept_transitive(a: Bank, b: Bank, c: Bank)
    requires
        share_price_kept(a, b),
        share_price_kept(b, c),
        b.total_deposit_shares > 0,
    ensures
        share_price_kept(a, c),
{
    let ta = a.total_deposits as int;
    let sa = a.total_deposit_shares as int;
    let tb = b.total_deposits as int;
    let sb = b.total_deposit_shares as int;
    let tc = c.total_deposits as int;
    let sc = c.total_deposit_shares as int;
    assert((tc * sa) * sb >= (tb * sc) * sa) by (nonlinear_arith)
        requires
            tc * sb >= tb * sc,
            sa >= 0,
    ;
    assert((tb * sa) * sc >= (ta * sb) * sc) by (nonlinear_arith)
        requires
            tb * sa >= ta * sb,
            sc >= 0,
    ;
    assert((tb * sc) * sa == (tb * sa) * sc) by (nonlinear_arith);
    assert((ta * sb) * sc == (ta * sc) * sb) by (nonlinear_arith);
    assert(tc * sa >= ta * sc) by (nonlinear_arith)
        requires
            (tc * sa) * sb >= (ta * sc) * sb,
            sb > 0,
    ;
}

/// Share-price monotonicity: over any sequence of deposits into a bank that
/// has shares out, the share price never falls.
pub proof fn lemma_deposits_keep_share_price(bank: Bank, movements: Seq<Movement>)
    requires
        bank.wf(),
        bank.total_deposit_shares > 0,
        forall|i: int| 0 <= i < movements.len() ==> #[trigger] movements[i] is Deposit,
    ensures
        bank_run(bank, movements).wf(),
        bank_run(bank, movements).total_deposit_shares >= bank.total_deposit_shares,
        share_price_kept(bank, bank_run(bank, movements)),
    decreases movements.len(),
{
    if movements.len() > 0 {
        let earlier = movements.drop_last();
        assert forall|i: int| 0 <= i < earlier.len() implies #[trigger] earlier[i] is Deposit by {
            assert(earlier[i] == movements[i]);
        }
        lemma_deposits_keep_share_price(bank, earlier);
        let before = bank_run(bank, earlier);
        let last = movements.last();
        assert(last == movements[movements.len() - 1]);
        lemma_step_keeps_wf(before, last);
        if bank_step(before, last) != before {
            lemma_deposit_keeps_share_price(before, last->Deposit_0);
            lemma_share_price_kept_transitive(bank, before, bank_step(before, last));
        }
    }
}

/// Share-price monotonicity: a bank whose shares stand at par, one share per
/// unit deposited, as every bank does when it is created, stays at par over
/// any sequence of deposits and withdrawals; no movement rounds anything off.
pub proof fn lemma_run_stays_at_par(bank: Bank, movements: Seq<Movement>)
    requires
        bank.total_deposits == bank.total_deposit_shares,
    ensures
        bank_run(bank, movements).total_deposits == bank_run(
            bank,
            movements,
        ).total_deposit_shares,
    decreases movements.len(),
{
    if movements.len() > 0 {
        lemma_run_stays_at_par(bank, movements.drop_last());
        let before = bank_run(bank, movements.drop_last());
        let t = before.total_deposits as nat;
        match movements.last() {
            Movement::Deposit(amount) => {
                if t > 0 {
                    assert((amount as nat * t) / t == amount as nat) by (nonlinear_arith)
                        requires
                            t > 0,
                    ;
                }
            },
            Movement::Withdraw(amount) => {
                if t > 0 {
                    assert((amount as nat * t) / t == amount as nat) by (nonlinear_arith)
                        requires
                            t > 0,
                    ;
                }
            },
        }
    }
}

/// A bank stays well formed over any sequence of movements.
pub proof fn lemma_run_keeps_wf(bank: Bank, movements: Seq<Movement>)
    requires
        bank.wf(),
    ensures
        bank_run(bank, movements).wf(),
    decreases movements.len(),
{
    if movements.len() > 0 {
        lemma_run_keeps_wf(bank, movements.drop_last());
        lemma_step_keeps_wf(bank_run(bank, movements.drop_last()), movements.last());
    }
}

/// Share-price monotonicity: in any sequence of deposits and withdrawals,
/// at every movement that finds shares out, a deposit does not lower the
/// share price, and a withdrawal lowers it by less than the rounding of one
/// share.
pub proof fn lemma_run_bounds_share_price(bank: Bank, movements: Seq<Movement>, k: int)
    requires
        bank.wf(),
        0 <= k < movements.len(),
        bank_run(bank, movements.take(k)).total_deposit_shares > 0,
    ensures
        ({
            let before = bank_run(bank, movements.take(k));
            let after = bank_run(bank, movements.take(k + 1));
            &&& after == bank_step(before, movements[k])
            &&& movements[k] is Deposit ==> share_price_kept(before, after)
            &&& movements[k] is Withdraw ==> share_price_within_one_share(before, after)
        }),
{
    let before = bank_run(bank, movements.take(k));
    assert(movements.take(k + 1).drop_last() =~= movements.take(k));
    assert(movements.take(k + 1).last() == movements[k]);
    lemma_run_keeps_wf(bank, movements.take(k));
    let t = before.total_deposits as int;
    let s = before.total_deposit_shares as int;
    assert(t * s > t * (s - 1)) by (nonlinear_arith)
        requires
            t > 0,
    ;
    match movements[k] {
        Movement::Deposit(amount) => {
            if bank_step(before, movements[k]) != before {
                lemma_deposit_keeps_share_price(before, amount);
            }
        },
        Movement::Withdraw(amount) => {
            if 0 < amount <= before.total_deposits {
                lemma_withdraw_keeps_share_price_within_one_share(before, amount);
            }
        },
    }
}

/// Borrow ceiling: where the bank and the user's record exist and the
/// ceiling can be computed, a loan above what the user may still borrow is
/// refused with `ExceedsMaxLTV`, and a loan of exactly that amount is
/// accepted, provided that the bank's and the user's debt stay in the
/// 64-bit range.
pub proof fn lemma_borrow_ceiling(state: Lending, ctx: Borrow, amount: u64)
    requires
        state.has_bank(ctx.mint.address),
        state.has_user(ctx.signer),
        max_borrowable_fits(state.bank(ctx.mint.address), state.user(ctx.signer)),
    ensures
        amount > max_borrowable_spec(state.bank(ctx.mint.address), state.user(ctx.signer)) ==> {
            &&& !borrow_accepted(state, ctx, amount)
            &&& borrow_error(state, ctx, amount) == ErrorCode::ExceedsMaxLTV
        },
        amount == max_borrowable_spec(state.bank(ctx.mint.address), state.user(ctx.signer))
            && borrow_fits(
            state.bank(ctx.mint.address),
            state.user(ctx.signer).position_of(ctx.mint.address),
            amount,
        ) ==> borrow_accepted(state, ctx, amount),
{
}

} // verus!

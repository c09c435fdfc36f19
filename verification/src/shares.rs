//! Share accounting: how amounts turn into shares of a bank and back, and
//! how a deposit and a withdrawal change a bank and a user's position in it.
//!
//! Every quotient is rounded down, which favours the pool over the caller.

use vstd::prelude::*;
use crate::errors::ErrorCode;
use crate::math::{lemma_mul_div_floor_le, mul_div, mul_div_floor};
use crate::state::{store, Bank, Position, User};

verus! {

/// Shares issued for a deposit of `amount`: one per unit into an empty bank,
/// else `floor(amount * total_deposit_shares / total_deposits)`.
pub open spec fn shares_for_deposit_spec(bank: Bank, amount: u64) -> nat {
    if bank.total_deposit_shares == 0 {
        amount as nat
    } else {
        mul_div_floor(amount as nat, bank.total_deposit_shares as nat, bank.total_deposits as nat)
    }
}

/// Amount that `shares` stand for: one unit per share at an empty bank, else
/// `floor(shares * total_deposits / total_deposit_shares)`.
pub open spec fn amount_for_withdraw_shares_spec(bank: Bank, shares: u64) -> nat {
    if bank.total_deposit_shares == 0 {
        shares as nat
    } else {
        mul_div_floor(shares as nat, bank.total_deposits as nat, bank.total_deposit_shares as nat)
    }
}

/// Shares removed by a withdrawal of `amount`, at the bank's ratio:
/// `floor(amount * total_deposit_shares / total_deposits)`.
pub open spec fn shares_for_withdraw_spec(bank: Bank, amount: u64) -> nat {
    mul_div_floor(amount as nat, bank.total_deposit_shares as nat, bank.total_deposits as nat)
}

/// No total and no balance leaves the 64-bit range in a deposit of `amount`.
pub open spec fn deposit_fits(bank: Bank, position: Position, amount: u64) -> bool {
    let shares = shares_for_deposit_spec(bank, amount);
    &&& bank.total_deposits + amount <= u64::MAX
    &&& bank.total_deposit_shares + shares <= u64::MAX
    &&& position.deposited_amount + amount <= u64::MAX
    &&& position.deposited_shares + shares <= u64::MAX
}

/// The bank after a deposit of `amount`.
pub open spec fn bank_after_deposit(bank: Bank, amount: u64) -> Bank {
    Bank {
        total_deposits: (bank.total_deposits + amount) as u64,
        total_deposit_shares: (bank.total_deposit_shares + shares_for_deposit_spec(
            bank,
            amount,
        )) as u64,
        ..bank
    }
}

/// The position after a deposit of `amount` into `bank`.
pub open spec fn position_after_deposit(bank: Bank, position: Position, amount: u64) -> Position {
    Position {
        deposited_amount: (position.deposited_amount + amount) as u64,
        deposited_shares: (position.deposited_shares + shares_for_deposit_spec(bank, amount)) as u64,
        ..position
    }
}

/// The user may withdraw `amount`: it is positive and within the principal.
pub open spec fn withdraw_allowed(position: Position, amount: u64) -> bool {
    0 < amount <= position.deposited_amount
}

/// No total and no balance goes below zero in a withdrawal of `amount`.
pub open spec fn withdraw_fits(bank: Bank, position: Position, amount: u64) -> bool {
    &&& amount <= bank.total_deposits
    &&& shares_for_withdraw_spec(bank, amount) <= position.deposited_shares
}

/// The bank after a withdrawal of `amount`.
pub open spec fn bank_after_withdraw(bank: Bank, amount: u64) -> Bank {
    Bank {
        total_deposits: (bank.total_deposits - amount) as u64,
        total_deposit_shares: (bank.total_deposit_shares - shares_for_withdraw_spec(
            bank,
            amount,
        )) as u64,
        ..bank
    }
}

/// The position after a withdrawal of `amount` from `bank`.
pub open spec fn position_after_withdraw(bank: Bank, position: Position, amount: u64) -> Position {
    Position {
        deposited_amount: (position.deposited_amount - amount) as u64,
        deposited_shares: (position.deposited_shares - shares_for_withdraw_spec(bank, amount)) as u64,
        ..position
    }
}

/// Shares that a deposit of `amount` into `bank` is worth.
///
/// Fails with `ArithmeticOverflow` exactly when the count leaves the 64-bit range.
pub fn shares_for_deposit(bank: &Bank, amount: u64) -> (r: Result<u64, ErrorCode>)
    requires
        bank.wf(),
    ensures
        match r {
            Ok(shares) => shares == shares_for_deposit_spec(*bank, amount),
            Err(e) => e == ErrorCode::ArithmeticOverflow && shares_for_deposit_spec(*bank, amount)
                > u64::MAX,
        },
{
    if bank.total_deposit_shares == 0 {
        Ok(amount)
    } else {
        match mul_div(amount, bank.total_deposit_shares, bank.total_deposits) {
            Some(shares) => Ok(shares),
            None => Err(ErrorCode::ArithmeticOverflow),
        }
    }
}

/// Amount that `shares` of `bank` stand for.
///
/// Fails with `ArithmeticOverflow` exactly when the amount leaves the 64-bit range.
pub fn amount_for_withdraw_shares(bank: &Bank, shares: u64) -> (r: Result<u64, ErrorCode>)
    requires
        bank.wf(),
    ensures
        match r {
            Ok(amount) => amount == amount_for_withdraw_shares_spec(*bank, shares),
            Err(e) => e == ErrorCode::ArithmeticOverflow && amount_for_withdraw_shares_spec(
                *bank,
                shares,
            ) > u64::MAX,
        },
{
    if bank.total_deposit_shares == 0 {
        Ok(shares)
    } else {
        match mul_div(shares, bank.total_deposits, bank.total_deposit_shares) {
            Some(amount) => Ok(amount),
            None => Err(ErrorCode::ArithmeticOverflow),
        }
    }
}

/// What a deposit of `amount` makes of a bank and of a position in it: the
/// new bank, the new position and the shares issued.
///
/// Succeeds exactly when `amount` is positive and nothing leaves the 64-bit
/// range; fails with `InsufficientFunds` on zero, else with `ArithmeticOverflow`.
pub fn deposit_into(bank: &Bank, position: &Position, amount: u64) -> (r: Result<
    (Bank, Position, u64),
    ErrorCode,
>)
    requires
        bank.wf(),
    ensures
        match r {
            Ok((new_bank, new_position, shares)) => {
                &&& amount > 0
                &&& deposit_fits(*bank, *position, amount)
                &&& shares == shares_for_deposit_spec(*bank, amount)
                &&& new_bank == bank_after_deposit(*bank, amount)
                &&& new_position == position_after_deposit(*bank, *position, amount)
                &&& new_bank.wf()
            },
            Err(e) => {
                &&& e == if amount == 0 {
                    ErrorCode::InsufficientFunds
                } else {
                    ErrorCode::ArithmeticOverflow
                }
                &&& amount > 0 ==> !deposit_fits(*bank, *position, amount)
            },
        },
{
    if amount == 0 {
        return Err(ErrorCode::InsufficientFunds);
    }
    let shares = match shares_for_deposit(bank, amount) {
        Ok(shares) => shares,
        Err(e) => {
            return Err(e);
        },
    };
    let total_deposits = match bank.total_deposits.checked_add(amount) {
        Some(v) => v,
        None => {
            return Err(ErrorCode::ArithmeticOverflow);
        },
    };
    let total_deposit_shares = match bank.total_deposit_shares.checked_add(shares) {
        Some(v) => v,
        None => {
            return Err(ErrorCode::ArithmeticOverflow);
        },
    };
    let deposited_amount = match position.deposited_amount.checked_add(amount) {
        Some(v) => v,
        None => {
            return Err(ErrorCode::ArithmeticOverflow);
        },
    };
    let deposited_shares = match position.deposited_shares.checked_add(shares) {
        Some(v) => v,
        None => {
            return Err(ErrorCode::ArithmeticOverflow);
        },
    };
    let new_bank = Bank {
        asset_id: bank.asset_id,
        total_deposits,
        total_deposit_shares,
        total_borrows: bank.total_borrows,
        total_borrow_shares: bank.total_borrow_shares,
        max_ltv: bank.max_ltv,
        liquidation_threshold: bank.liquidation_threshold,
    };
    let new_position = Position {
        asset_id: position.asset_id,
        deposited_amount,
        deposited_shares,
        borrowed_amount: position.borrowed_amount,
        borrowed_shares: position.borrowed_shares,
    };
    Ok((new_bank, new_position, shares))
}

/// What a withdrawal of `amount` makes of a bank and of a position in it:
/// the new bank, the new position and the shares removed.
///
/// Fails with `InsufficientFunds` unless `amount` is positive and within the
/// position's principal, else with `ArithmeticOverflow` exactly when a total
/// or a balance would go below zero.
pub fn withdraw_from(bank: &Bank, position: &Position, amount: u64) -> (r: Result<
    (Bank, Position, u64),
    ErrorCode,
>)
    requires
        bank.wf(),
    ensures
        match r {
            Ok((new_bank, new_position, shares)) => {
                &&& withdraw_allowed(*position, amount)
                &&& withdraw_fits(*bank, *position, amount)
                &&& shares == shares_for_withdraw_spec(*bank, amount)
                &&& new_bank == bank_after_withdraw(*bank, amount)
                &&& new_position == position_after_withdraw(*bank, *position, amount)
                &&& new_bank.wf()
            },
            Err(e) => {
                &&& e == if withdraw_allowed(*position, amount) {
                    ErrorCode::ArithmeticOverflow
                } else {
                    ErrorCode::InsufficientFunds
                }
                &&& withdraw_allowed(*position, amount) ==> !withdraw_fits(
                    *bank,
                    *position,
                    amount,
                )
            },
        },
{
    if amount == 0 || amount > position.deposited_amount {
        return Err(ErrorCode::InsufficientFunds);
    }
    if amount > bank.total_deposits {
        return Err(ErrorCode::ArithmeticOverflow);
    }
    proof {
        lemma_mul_div_floor_le(
            amount as nat,
            bank.total_deposit_shares as nat,
            bank.total_deposits as nat,
        );
    }
    let shares = match mul_div(amount, bank.total_deposit_shares, bank.total_deposits) {
        Some(shares) => shares,
        None => {
            return Err(ErrorCode::ArithmeticOverflow);
        },
    };
    if shares > position.deposited_shares {
        return Err(ErrorCode::ArithmeticOverflow);
    }
    let new_bank = Bank {
        asset_id: bank.asset_id,
        total_deposits: bank.total_deposits - amount,
        total_deposit_shares: bank.total_deposit_shares - shares,
        total_borrows: bank.total_borrows,
        total_borrow_shares: bank.total_borrow_shares,
        max_ltv: bank.max_ltv,
        liquidation_threshold: bank.liquidation_threshold,
    };
    let new_position = Position {
        asset_id: position.asset_id,
        deposited_amount: position.deposited_amount - amount,
        deposited_shares: position.deposited_shares - shares,
        borrowed_amount: position.borrowed_amount,
        borrowed_shares: position.borrowed_shares,
    };
    Ok((new_bank, new_position, shares))
}

/// Deposits `amount` of the bank's asset for the user and returns the shares issued.
///
/// The bank's totals and the user's position in the bank's asset grow by
/// `amount` and by the shares; the position is created where the user had
/// none. An `amount` of zero is refused with `InsufficientFunds`, a total or
/// balance that would leave the 64-bit range with `ArithmeticOverflow`; a
/// refusal changes nothing.
pub fn deposit(bank: &mut Bank, user: &mut User, amount: u64) -> (r: Result<u64, ErrorCode>)
    requires
        old(bank).wf(),
        old(user).wf(),
    ensures
        final(bank).wf(),
        final(user).wf(),
        final(user).owner == old(user).owner,
        final(user).collateral_asset_id == old(user).collateral_asset_id,
        match r {
            Ok(shares) => {
                let position = old(user).position_of(old(bank).asset_id);
                &&& amount > 0
                &&& deposit_fits(*old(bank), position, amount)
                &&& shares == shares_for_deposit_spec(*old(bank), amount)
                &&& *final(bank) == bank_after_deposit(*old(bank), amount)
                &&& final(user).positions@ == store(
                    old(user).positions@,
                    position_after_deposit(*old(bank), position, amount),
                )
            },
            Err(e) => {
                &&& *final(bank) == *old(bank)
                &&& *final(user) == *old(user)
                &&& e == if amount == 0 {
                    ErrorCode::InsufficientFunds
                } else {
                    ErrorCode::ArithmeticOverflow
                }
                &&& amount > 0 ==> !deposit_fits(
                    *old(bank),
                    old(user).position_of(old(bank).asset_id),
                    amount,
                )
            },
        },
{
    let position = user.position(bank.asset_id);
    match deposit_into(bank, &position, amount) {
        Ok((new_bank, new_position, shares)) => {
            *bank = new_bank;
            user.put(new_position);
            Ok(shares)
        },
        Err(e) => Err(e),
    }
}

/// Withdraws `amount` of the bank's asset for the user and returns the shares removed.
///
/// The amount must be positive and within the user's principal in the bank,
/// else the withdrawal is refused with `InsufficientFunds`. The shares
/// removed follow the bank's ratio, rounded down. A total or balance that
/// would go below zero is refused with `ArithmeticOverflow`; a refusal
/// changes nothing.
pub fn withdraw(bank: &mut Bank, user: &mut User, amount: u64) -> (r: Result<u64, ErrorCode>)
    requires
        old(bank).wf(),
        old(user).wf(),
    ensures
        final(bank).wf(),
        final(user).wf(),
        final(user).owner == old(user).owner,
        final(user).collateral_asset_id == old(user).collateral_asset_id,
        match r {
            Ok(shares) => {
                let position = old(user).position_of(old(bank).asset_id);
                &&& withdraw_allowed(position, amount)
                &&& withdraw_fits(*old(bank), position, amount)
                &&& shares == shares_for_withdraw_spec(*old(bank), amount)
                &&& *final(bank) == bank_after_withdraw(*old(bank), amount)
                &&& final(user).positions@ == store(
                    old(user).positions@,
                    position_after_withdraw(*old(bank), position, amount),
                )
            },
            Err(e) => {
                let position = old(user).position_of(old(bank).asset_id);
                &&& *final(bank) == *old(bank)
                &&& *final(user) == *old(user)
                &&& e == if withdraw_allowed(position, amount) {
                    ErrorCode::ArithmeticOverflow
                } else {
                    ErrorCode::InsufficientFunds
                }
                &&& withdraw_allowed(position, amount) ==> !withdraw_fits(
                    *old(bank),
                    position,
                    amount,
                )
            },
        },
{
    let position = user.position(bank.asset_id);
    match withdraw_from(bank, &position, amount) {
        Ok((new_bank, new_position, shares)) => {
            *bank = new_bank;
            user.put(new_position);
            Ok(shares)
        },
        Err(e) => Err(e),
    }
}

} // verus!

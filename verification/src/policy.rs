//! Collateral and borrow policy: what a user may borrow against the
//! collateral deposited, how a loan and a repayment change a bank and a
//! position, and when a position may be liquidated.
//!
//! Amounts of different assets are valued unit for unit. Ratios are
//! fixed-point numbers over `RATIO_SCALE`.

use vstd::prelude::*;
use crate::errors::ErrorCode;
use crate::math::{lemma_mul_div_floor_le, mul_div, mul_div_floor, mul_div_wide};
use crate::shares::{bank_after_withdraw, position_after_withdraw, withdraw_fits, withdraw_from};
use crate::state::{lemma_store, position_in, store, Bank, Position, User, RATIO_SCALE};

verus! {

/// The liquidator's bonus on the collateral seized, over `RATIO_SCALE`
/// (five per cent).
pub const LIQUIDATION_BONUS: u64 = 500;

/// The value of a user's collateral: the sum of the principal deposited
/// over all positions.
pub open spec fn collateral_value(s: Seq<Position>) -> nat
    decreases s.len(),
{
    if s.len() == 0 {
        0
    } else {
        collateral_value(s.drop_last()) + s.last().deposited_amount as nat
    }
}

/// The value of a user's debt: the sum of the principal owed over all positions.
pub open spec fn borrowed_value(s: Seq<Position>) -> nat
    decreases s.len(),
{
    if s.len() == 0 {
        0
    } else {
        borrowed_value(s.drop_last()) + s.last().borrowed_amount as nat
    }
}

/// The debt that `bank` allows against the user's collateral:
/// `floor(collateral_value * max_ltv / RATIO_SCALE)`.
pub open spec fn borrow_limit(bank: Bank, user: User) -> nat {
    mul_div_floor(collateral_value(user.positions@), bank.max_ltv as nat, RATIO_SCALE as nat)
}

/// What the user may still borrow from `bank`: the borrow limit less the
/// debt that the user has already, and zero where the debt is above it.
pub open spec fn max_borrowable_spec(bank: Bank, user: User) -> nat {
    let limit = borrow_limit(bank, user);
    let debt = borrowed_value(user.positions@);
    if limit >= debt {
        (limit - debt) as nat
    } else {
        0
    }
}

/// The user's collateral, the user's debt and what the user may still
/// borrow from `bank` all fit in 64 bits.
pub open spec fn max_borrowable_fits(bank: Bank, user: User) -> bool {
    &&& collateral_value(user.positions@) <= u64::MAX
    &&& borrowed_value(user.positions@) <= u64::MAX
    &&& max_borrowable_spec(bank, user) <= u64::MAX
}

/// The position may be liquidated: its debt over its collateral has reached
/// the bank's liquidation threshold. Without collateral, any debt has.
pub open spec fn is_liquidatable_spec(bank: Bank, user: User) -> bool {
    let collateral = collateral_value(user.positions@);
    let debt = borrowed_value(user.positions@);
    if collateral == 0 {
        debt > 0
    } else {
        debt * RATIO_SCALE >= bank.liquidation_threshold * collateral
    }
}

/// Shares of debt issued for a loan of `amount`: one per unit where nothing
/// is lent yet, else `floor(amount * total_borrow_shares / total_borrows)`.
pub open spec fn shares_for_borrow_spec(bank: Bank, amount: u64) -> nat {
    if bank.total_borrow_shares == 0 {
        amount as nat
    } else {
        mul_div_floor(amount as nat, bank.total_borrow_shares as nat, bank.total_borrows as nat)
    }
}

/// Shares of debt removed by a repayment of `amount`:
/// `floor(amount * total_borrow_shares / total_borrows)`.
pub open spec fn shares_for_repay_spec(bank: Bank, amount: u64) -> nat {
    mul_div_floor(amount as nat, bank.total_borrow_shares as nat, bank.total_borrows as nat)
}

/// No total and no balance leaves the 64-bit range in a loan of `amount`.
pub open spec fn borrow_fits(bank: Bank, position: Position, amount: u64) -> bool {
    let shares = shares_for_borrow_spec(bank, amount);
    &&& bank.total_borrows + amount <= u64::MAX
    &&& bank.total_borrow_shares + shares <= u64::MAX
    &&& position.borrowed_amount + amount <= u64::MAX
    &&& position.borrowed_shares + shares <= u64::MAX
}

/// The bank after a loan of `amount`.
pub open spec fn bank_after_borrow(bank: Bank, amount: u64) -> Bank {
    Bank {
        total_borrows: (bank.total_borrows + amount) as u64,
        total_borrow_shares: (bank.total_borrow_shares + shares_for_borrow_spec(bank, amount)) as u64,
        ..bank
    }
}

/// The position after a loan of `amount` from `bank`.
pub open spec fn position_after_borrow(bank: Bank, position: Position, amount: u64) -> Position {
    Position {
        borrowed_amount: (position.borrowed_amount + amount) as u64,
        borrowed_shares: (position.borrowed_shares + shares_for_borrow_spec(bank, amount)) as u64,
        ..position
    }
}

/// The user may repay `amount`: it is positive and within the debt.
pub open spec fn repay_allowed(position: Position, amount: u64) -> bool {
    0 < amount <= position.borrowed_amount
}

/// No total and no balance goes below zero in a repayment of `amount`.
pub open spec fn repay_fits(bank: Bank, position: Position, amount: u64) -> bool {
    &&& amount <= bank.total_borrows
    &&& shares_for_repay_spec(bank, amount) <= position.borrowed_shares
}

/// The bank after a repayment of `amount`.
pub open spec fn bank_after_repay(bank: Bank, amount: u64) -> Bank {
    Bank {
        total_borrows: (bank.total_borrows - amount) as u64,
        total_borrow_shares: (bank.total_borrow_shares - shares_for_repay_spec(bank, amount)) as u64,
        ..bank
    }
}

/// The position after a repayment of `amount` to `bank`.
pub open spec fn position_after_repay(bank: Bank, position: Position, amount: u64) -> Position {
    Position {
        borrowed_amount: (position.borrowed_amount - amount) as u64,
        borrowed_shares: (position.borrowed_shares - shares_for_repay_spec(bank, amount)) as u64,
        ..position
    }
}

/// The sum of the principal deposited over the user's positions.
fn sum_deposited(user: &User) -> (sum: u128)
    ensures
        sum == collateral_value(user.positions@),
{
    let n = user.positions.len();
    let mut sum: u128 = 0;
    let mut i: usize = 0;
    assert(user.positions@.take(0) =~= Seq::<Position>::empty());
    while i < n
        invariant
            n == user.positions.len(),
            i <= n,
            sum == collateral_value(user.positions@.take(i as int)),
            sum <= i * 0xFFFF_FFFF_FFFF_FFFF,
        decreases n - i,
    {
        proof {
            let next = user.positions@.take(i + 1);
            assert(next.drop_last() =~= user.positions@.take(i as int));
            assert(next.last() == user.positions@[i as int]);
            assert((i + 1) * 0xFFFF_FFFF_FFFF_FFFF <= 0xFFFF_FFFF_FFFF_FFFF * 0xFFFF_FFFF_FFFF_FFFF)
                by (nonlinear_arith)
                requires
                    i + 1 <= 0xFFFF_FFFF_FFFF_FFFF,
            ;
            assert((i + 1) * 0xFFFF_FFFF_FFFF_FFFF == i * 0xFFFF_FFFF_FFFF_FFFF
                + 0xFFFF_FFFF_FFFF_FFFF) by (nonlinear_arith);
        }
        sum = sum + user.positions[i].deposited_amount as u128;
        i = i + 1;
    }
    assert(user.positions@.take(n as int) =~= user.positions@);
    sum
}

/// The sum of the principal owed over the user's positions.
fn sum_borrowed(user: &User) -> (sum: u128)
    ensures
        sum == borrowed_value(user.positions@),
{
    let n = user.positions.len();
    let mut sum: u128 = 0;
    let mut i: usize = 0;
    assert(user.positions@.take(0) =~= Seq::<Position>::empty());
    while i < n
        invariant
            n == user.positions.len(),
            i <= n,
            sum == borrowed_value(user.positions@.take(i as int)),
            sum <= i * 0xFFFF_FFFF_FFFF_FFFF,
        decreases n - i,
    {
        proof {
            let next = user.positions@.take(i + 1);
            assert(next.drop_last() =~= user.positions@.take(i as int));
            assert(next.last() == user.positions@[i as int]);
            assert((i + 1) * 0xFFFF_FFFF_FFFF_FFFF <= 0xFFFF_FFFF_FFFF_FFFF * 0xFFFF_FFFF_FFFF_FFFF)
                by (nonlinear_arith)
                requires
                    i + 1 <= 0xFFFF_FFFF_FFFF_FFFF,
            ;
            assert((i + 1) * 0xFFFF_FFFF_FFFF_FFFF == i * 0xFFFF_FFFF_FFFF_FFFF
                + 0xFFFF_FFFF_FFFF_FFFF) by (nonlinear_arith);
        }
        sum = sum + user.positions[i].borrowed_amount as u128;
        i = i + 1;
    }
    assert(user.positions@.take(n as int) =~= user.positions@);
    sum
}

/// The value of the user's collateral.
///
/// Fails with `ArithmeticOverflow` exactly when the sum leaves the 64-bit range.
pub fn collateral_value_of(user: &User) -> (r: Result<u64, ErrorCode>)
    ensures
        match r {
            Ok(v) => v == collateral_value(user.positions@),
            Err(e) => e == ErrorCode::ArithmeticOverflow && collateral_value(user.positions@)
                > u64::MAX,
        },
{
    let sum = sum_deposited(user);
    if sum > u64::MAX as u128 {
        Err(ErrorCode::ArithmeticOverflow)
    } else {
        Ok(sum as u64)
    }
}

/// The value of the user's debt.
///
/// Fails with `ArithmeticOverflow` exactly when the sum leaves the 64-bit range.
pub fn borrowed_value_of(user: &User) -> (r: Result<u64, ErrorCode>)
    ensures
        match r {
            Ok(v) => v == borrowed_value(user.positions@),
            Err(e) => e == ErrorCode::ArithmeticOverflow && borrowed_value(user.positions@)
                > u64::MAX,
        },
{
    let sum = sum_borrowed(user);
    if sum > u64::MAX as u128 {
        Err(ErrorCode::ArithmeticOverflow)
    } else {
        Ok(sum as u64)
    }
}

/// What the user may still borrow from `bank`.
///
/// Fails with `ArithmeticOverflow` exactly when the collateral, the debt or
/// the result leaves the 64-bit range.
pub fn max_borrowable(bank: &Bank, user: &User) -> (r: Result<u64, ErrorCode>)
    ensures
        match r {
            Ok(amount) => max_borrowable_fits(*bank, *user) && amount == max_borrowable_spec(
                *bank,
                *user,
            ),
            Err(e) => e == ErrorCode::ArithmeticOverflow && !max_borrowable_fits(*bank, *user),
        },
{
    let collateral = match collateral_value_of(user) {
        Ok(v) => v,
        Err(e) => {
            return Err(e);
        },
    };
    let debt = match borrowed_value_of(user) {
        Ok(v) => v,
        Err(e) => {
            return Err(e);
        },
    };
    let limit: u128 = mul_div_wide(collateral, bank.max_ltv, RATIO_SCALE);
    if limit < debt as u128 {
        Ok(0)
    } else {
        let room: u128 = limit - debt as u128;
        if room > u64::MAX as u128 {
            Err(ErrorCode::ArithmeticOverflow)
        } else {
            Ok(room as u64)
        }
    }
}

/// Whether the user's position may be liquidated under the threshold of `bank`.
///
/// Fails with `ArithmeticOverflow` exactly when the collateral or the debt
/// leaves the 64-bit range.
pub fn is_liquidatable(bank: &Bank, user: &User) -> (r: Result<bool, ErrorCode>)
    ensures
        match r {
            Ok(b) => {
                &&& collateral_value(user.positions@) <= u64::MAX
                &&& borrowed_value(user.positions@) <= u64::MAX
                &&& b == is_liquidatable_spec(*bank, *user)
            },
            Err(e) => {
                &&& e == ErrorCode::ArithmeticOverflow
                &&& (collateral_value(user.positions@) > u64::MAX || borrowed_value(
                    user.positions@,
                ) > u64::MAX)
            },
        },
{
    let collateral = match collateral_value_of(user) {
        Ok(v) => v,
        Err(e) => {
            return Err(e);
        },
    };
    let debt = match borrowed_value_of(user) {
        Ok(v) => v,
        Err(e) => {
            return Err(e);
        },
    };
    if collateral == 0 {
        Ok(debt > 0)
    } else {
        assert(debt * RATIO_SCALE <= 0xFFFF_FFFF_FFFF_FFFF * 0xFFFF_FFFF_FFFF_FFFF) by (nonlinear_arith)
            requires
                0 <= debt <= 0xFFFF_FFFF_FFFF_FFFF,
                RATIO_SCALE == 10_000,
        ;
        assert(bank.liquidation_threshold * collateral <= 0xFFFF_FFFF_FFFF_FFFF
            * 0xFFFF_FFFF_FFFF_FFFF) by (nonlinear_arith)
            requires
                0 <= bank.liquidation_threshold <= 0xFFFF_FFFF_FFFF_FFFF,
                0 <= collateral <= 0xFFFF_FFFF_FFFF_FFFF,
        ;
        let scaled_debt: u128 = (debt as u128) * (RATIO_SCALE as u128);
        let threshold: u128 = (bank.liquidation_threshold as u128) * (collateral as u128);
        Ok(scaled_debt >= threshold)
    }
}

/// What a loan of `amount` makes of a bank and of a position in it: the new
/// bank, the new position and the shares of debt issued. The loan-to-value
/// ceiling is not looked at here.
///
/// Fails with `ArithmeticOverflow` exactly when a total or a balance would
/// leave the 64-bit range.
pub fn borrow_from(bank: &Bank, position: &Position, amount: u64) -> (r: Result<
    (Bank, Position, u64),
    ErrorCode,
>)
    requires
        bank.wf(),
    ensures
        match r {
            Ok((new_bank, new_position, shares)) => {
                &&& borrow_fits(*bank, *position, amount)
                &&& shares == shares_for_borrow_spec(*bank, amount)
                &&& new_bank == bank_after_borrow(*bank, amount)
                &&& new_position == position_after_borrow(*bank, *position, amount)
                &&& new_bank.wf()
            },
            Err(e) => e == ErrorCode::ArithmeticOverflow && !borrow_fits(*bank, *position, amount),
        },
{
    let shares = if bank.total_borrow_shares == 0 {
        amount
    } else {
        match mul_div(amount, bank.total_borrow_shares, bank.total_borrows) {
            Some(shares) => shares,
            None => {
                return Err(ErrorCode::ArithmeticOverflow);
            },
        }
    };
    let total_borrows = match bank.total_borrows.checked_add(amount) {
        Some(v) => v,
        None => {
            return Err(ErrorCode::ArithmeticOverflow);
        },
    };
    let total_borrow_shares = match bank.total_borrow_shares.checked_add(shares) {
        Some(v) => v,
        None => {
            return Err(ErrorCode::ArithmeticOverflow);
        },
    };
    let borrowed_amount = match position.borrowed_amount.checked_add(amount) {
        Some(v) => v,
        None => {
            return Err(ErrorCode::ArithmeticOverflow);
        },
    };
    let borrowed_shares = match position.borrowed_shares.checked_add(shares) {
        Some(v) => v,
        None => {
            return Err(ErrorCode::ArithmeticOverflow);
        },
    };
    let new_bank = Bank {
        asset_id: bank.asset_id,
        total_deposits: bank.total_deposits,
        total_deposit_shares: bank.total_deposit_shares,
        total_borrows,
        total_borrow_shares,
        max_ltv: bank.max_ltv,
        liquidation_threshold: bank.liquidation_threshold,
    };
    let new_position = Position {
        asset_id: position.asset_id,
        deposited_amount: position.deposited_amount,
        deposited_shares: position.deposited_shares,
        borrowed_amount,
        borrowed_shares,
    };
    Ok((new_bank, new_position, shares))
}

/// What a repayment of `amount` makes of a bank and of a position in it:
/// the new bank, the new position and the shares of debt removed.
///
/// Fails with `InsufficientFunds` unless `amount` is positive and within the
/// position's debt, else with `ArithmeticOverflow` exactly when a total or a
/// balance would go below zero.
pub fn repay_to(bank: &Bank, position: &Position, amount: u64) -> (r: Result<
    (Bank, Position, u64),
    ErrorCode,
>)
    requires
        bank.wf(),
    ensures
        match r {
            Ok((new_bank, new_position, shares)) => {
                &&& repay_allowed(*position, amount)
                &&& repay_fits(*bank, *position, amount)
                &&& shares == shares_for_repay_spec(*bank, amount)
                &&& new_bank == bank_after_repay(*bank, amount)
                &&& new_position == position_after_repay(*bank, *position, amount)
                &&& new_bank.wf()
            },
            Err(e) => {
                &&& e == if repay_allowed(*position, amount) {
                    ErrorCode::ArithmeticOverflow
                } else {
                    ErrorCode::InsufficientFunds
                }
                &&& repay_allowed(*position, amount) ==> !repay_fits(*bank, *position, amount)
            },
        },
{
    if amount == 0 || amount > position.borrowed_amount {
        return Err(ErrorCode::InsufficientFunds);
    }
    if amount > bank.total_borrows {
        return Err(ErrorCode::ArithmeticOverflow);
    }
    proof {
        lemma_mul_div_floor_le(
            amount as nat,
            bank.total_borrow_shares as nat,
            bank.total_borrows as nat,
        );
    }
    let shares = match mul_div(amount, bank.total_borrow_shares, bank.total_borrows) {
        Some(shares) => shares,
        None => {
            return Err(ErrorCode::ArithmeticOverflow);
        },
    };
    if shares > position.borrowed_shares {
        return Err(ErrorCode::ArithmeticOverflow);
    }
    let new_bank = Bank {
        asset_id: bank.asset_id,
        total_deposits: bank.total_deposits,
        total_deposit_shares: bank.total_deposit_shares,
        total_borrows: bank.total_borrows - amount,
        total_borrow_shares: bank.total_borrow_shares - shares,
        max_ltv: bank.max_ltv,
        liquidation_threshold: bank.liquidation_threshold,
    };
    let new_position = Position {
        asset_id: position.asset_id,
        deposited_amount: position.deposited_amount,
        deposited_shares: position.deposited_shares,
        borrowed_amount: position.borrowed_amount - amount,
        borrowed_shares: position.borrowed_shares - shares,
    };
    Ok((new_bank, new_position, shares))
}

/// Lends `amount` of the bank's asset to the user and returns the shares of
/// debt issued.
///
/// The loan is refused with `ExceedsMaxLTV` exactly when `amount` is above
/// what the user may still borrow from the bank. It is refused with
/// `ArithmeticOverflow` where that ceiling cannot be computed, or where a
/// total or a balance would leave the 64-bit range. A refusal changes nothing.
pub fn borrow(bank: &mut Bank, user: &mut User, amount: u64) -> (r: Result<u64, ErrorCode>)
    requires
        old(bank).wf(),
        old(user).wf(),
    ensures
        final(bank).wf(),
        final(user).wf(),
        final(user).owner == old(user).owner,
        final(user).collateral_asset_id == old(user).collateral_asset_id,
        match r {
            Ok(shares) => {
                let position = old(user).position_of(old(bank).asset_id);
                &&& max_borrowable_fits(*old(bank), *old(user))
                &&& amount <= max_borrowable_spec(*old(bank), *old(user))
                &&& borrow_fits(*old(bank), position, amount)
                &&& shares == shares_for_borrow_spec(*old(bank), amount)
                &&& *final(bank) == bank_after_borrow(*old(bank), amount)
                &&& final(user).positions@ == store(
                    old(user).positions@,
                    position_after_borrow(*old(bank), position, amount),
                )
            },
            Err(e) => {
                let position = old(user).position_of(old(bank).asset_id);
                &&& *final(bank) == *old(bank)
                &&& *final(user) == *old(user)
                &&& e == if max_borrowable_fits(*old(bank), *old(user)) && amount
                    > max_borrowable_spec(*old(bank), *old(user)) {
                    ErrorCode::ExceedsMaxLTV
                } else {
                    ErrorCode::ArithmeticOverflow
                }
                &&& max_borrowable_fits(*old(bank), *old(user)) && amount <= max_borrowable_spec(
                    *old(bank),
                    *old(user),
                ) ==> !borrow_fits(*old(bank), position, amount)
            },
        },
{
    let ceiling = match max_borrowable(bank, user) {
        Ok(ceiling) => ceiling,
        Err(e) => {
            return Err(e);
        },
    };
    if amount > ceiling {
        return Err(ErrorCode::ExceedsMaxLTV);
    }
    let position = user.position(bank.asset_id);
    match borrow_from(bank, &position, amount) {
        Ok((new_bank, new_position, shares)) => {
            *bank = new_bank;
            user.put(new_position);
            Ok(shares)
        },
        Err(e) => Err(e),
    }
}

/// Repays `amount` of the user's debt to the bank and returns the shares of
/// debt removed.
///
/// The amount must be positive and within the user's debt in the bank, else
/// the repayment is refused with `InsufficientFunds`. A total or balance
/// that would go below zero is refused with `ArithmeticOverflow`; a refusal
/// changes nothing.
pub fn repay(bank: &mut Bank, user: &mut User, amount: u64) -> (r: Result<u64, ErrorCode>)
    requires
        old(bank).wf(),
        old(user).wf(),
    ensures
        final(bank).wf(),
        final(user).wf(),
        final(user).owner == old(user).owner,
        final(user).collateral_asset_id == old(user).collateral_asset_id,
        match r {
            Ok(shares) => {
                let position = old(user).position_of(old(bank).asset_id);
                &&& repay_allowed(position, amount)
                &&& repay_fits(*old(bank), position, amount)
                &&& shares == shares_for_repay_spec(*old(bank), amount)
                &&& *final(bank) == bank_after_repay(*old(bank), amount)
                &&& final(user).positions@ == store(
                    old(user).positions@,
                    position_after_repay(*old(bank), position, amount),
                )
            },
            Err(e) => {
                let position = old(user).position_of(old(bank).asset_id);
                &&& *final(bank) == *old(bank)
                &&& *final(user) == *old(user)
                &&& e == if repay_allowed(position, amount) {
                    ErrorCode::ArithmeticOverflow
                } else {
                    ErrorCode::InsufficientFunds
                }
                &&& repay_allowed(position, amount) ==> !repay_fits(*old(bank), position, amount)
            },
        },
{
    let position = user.position(bank.asset_id);
    match repay_to(bank, &position, amount) {
        Ok((new_bank, new_position, shares)) => {
            *bank = new_bank;
            user.put(new_position);
            Ok(shares)
        },
        Err(e) => Err(e),
    }
}

/// The collateral that a liquidator gets for repaying `repay_amount` of the
/// debt in `debt`: the slice of the principal in `collateral` that the
/// repayment is of the debt, `floor(repay_amount * deposited / borrowed)`,
/// and `LIQUIDATION_BONUS` on that slice; never more than the principal.
pub open spec fn seized_collateral_spec(debt: Position, collateral: Position, repay_amount: u64) -> nat {
    let slice = mul_div_floor(
        repay_amount as nat,
        collateral.deposited_amount as nat,
        debt.borrowed_amount as nat,
    );
    let bonus = mul_div_floor(slice, LIQUIDATION_BONUS as nat, RATIO_SCALE as nat);
    if slice + bonus <= collateral.deposited_amount {
        slice + bonus
    } else {
        collateral.deposited_amount as nat
    }
}

/// The user's position in the debt asset once `repay_amount` is repaid.
pub open spec fn debt_after_liquidation(debt_bank: Bank, user: User, repay_amount: u64) -> Position {
    position_after_repay(debt_bank, user.position_of(debt_bank.asset_id), repay_amount)
}

/// The user's position in the collateral asset once the repayment is
/// recorded and before collateral is taken.
pub open spec fn collateral_before_seizure(
    collateral_bank: Bank,
    debt_bank: Bank,
    user: User,
    repay_amount: u64,
) -> Position {
    position_in(
        store(user.positions@, debt_after_liquidation(debt_bank, user, repay_amount)),
        collateral_bank.asset_id,
    )
}

/// The collateral that a liquidation of `repay_amount` takes from the user.
pub open spec fn liquidation_seizure(
    collateral_bank: Bank,
    debt_bank: Bank,
    user: User,
    repay_amount: u64,
) -> nat {
    seized_collateral_spec(
        user.position_of(debt_bank.asset_id),
        collateral_before_seizure(collateral_bank, debt_bank, user, repay_amount),
        repay_amount,
    )
}

/// The liquidation goes through: the position may be liquidated, the
/// repayment is within the debt, and no total or balance goes below zero.
pub open spec fn liquidation_succeeds(
    collateral_bank: Bank,
    debt_bank: Bank,
    user: User,
    repay_amount: u64,
) -> bool {
    let debt = user.position_of(debt_bank.asset_id);
    let seized = liquidation_seizure(collateral_bank, debt_bank, user, repay_amount);
    &&& collateral_value(user.positions@) <= u64::MAX
    &&& borrowed_value(user.positions@) <= u64::MAX
    &&& is_liquidatable_spec(collateral_bank, user)
    &&& repay_allowed(debt, repay_amount)
    &&& repay_fits(debt_bank, debt, repay_amount)
    &&& seized > 0 ==> withdraw_fits(
        collateral_bank,
        collateral_before_seizure(collateral_bank, debt_bank, user, repay_amount),
        seized as u64,
    )
}

/// The error with which a liquidation that does not go through is refused.
pub open spec fn liquidation_error(
    collateral_bank: Bank,
    debt_bank: Bank,
    user: User,
    repay_amount: u64,
) -> ErrorCode {
    if collateral_value(user.positions@) > u64::MAX || borrowed_value(user.positions@)
        > u64::MAX {
        ErrorCode::ArithmeticOverflow
    } else if !is_liquidatable_spec(collateral_bank, user) {
        ErrorCode::NotLiquidatable
    } else if !repay_allowed(user.position_of(debt_bank.asset_id), repay_amount) {
        ErrorCode::InsufficientFunds
    } else {
        ErrorCode::ArithmeticOverflow
    }
}

/// The collateral that a liquidator gets for repaying `repay_amount` of the
/// debt in `debt`, out of the principal in `collateral`.
pub fn seized_collateral(debt: &Position, collateral: &Position, repay_amount: u64) -> (seized: u64)
    requires
        repay_allowed(*debt, repay_amount),
    ensures
        seized == seized_collateral_spec(*debt, *collateral, repay_amount),
        seized <= collateral.deposited_amount,
{
    proof {
        lemma_mul_div_floor_le(
            repay_amount as nat,
            collateral.deposited_amount as nat,
            debt.borrowed_amount as nat,
        );
    }
    let slice: u128 = mul_div_wide(repay_amount, collateral.deposited_amount, debt.borrowed_amount);
    let bonus: u128 = mul_div_wide(slice as u64, LIQUIDATION_BONUS, RATIO_SCALE);
    proof {
        lemma_mul_div_floor_le(LIQUIDATION_BONUS as nat, slice as nat, RATIO_SCALE as nat);
        assert(slice * LIQUIDATION_BONUS == LIQUIDATION_BONUS * slice) by (nonlinear_arith);
    }
    let total: u128 = slice + bonus;
    if total <= collateral.deposited_amount as u128 {
        total as u64
    } else {
        collateral.deposited_amount
    }
}

/// Liquidates part of the user's position: `repay_amount` of the user's debt
/// in `debt_bank` is repaid, and collateral leaves the user's position in
/// `collateral_bank` for the liquidator. Returns the collateral seized.
///
/// Refused with `NotLiquidatable` unless the position may be liquidated
/// under the threshold of `collateral_bank`; with `InsufficientFunds` unless
/// `repay_amount` is positive and within the debt; with `ArithmeticOverflow`
/// where a sum leaves the 64-bit range or a total or balance would go below
/// zero. A refusal changes nothing.
pub fn liquidate(
    collateral_bank: &mut Bank,
    debt_bank: &mut Bank,
    user: &mut User,
    repay_amount: u64,
) -> (r: Result<u64, ErrorCode>)
    requires
        old(collateral_bank).wf(),
        old(debt_bank).wf(),
        old(user).wf(),
    ensures
        final(collateral_bank).wf(),
        final(debt_bank).wf(),
        final(user).wf(),
        final(user).owner == old(user).owner,
        final(user).collateral_asset_id == old(user).collateral_asset_id,
        r is Ok <==> liquidation_succeeds(
            *old(collateral_bank),
            *old(debt_bank),
            *old(user),
            repay_amount,
        ),
        match r {
            Ok(seized) => {
                let debt = debt_after_liquidation(*old(debt_bank), *old(user), repay_amount);
                let collateral = collateral_before_seizure(
                    *old(collateral_bank),
                    *old(debt_bank),
                    *old(user),
                    repay_amount,
                );
                &&& seized == liquidation_seizure(
                    *old(collateral_bank),
                    *old(debt_bank),
                    *old(user),
                    repay_amount,
                )
                &&& *final(debt_bank) == bank_after_repay(*old(debt_bank), repay_amount)
                &&& *final(collateral_bank) == if seized > 0 {
                    bank_after_withdraw(*old(collateral_bank), seized)
                } else {
                    *old(collateral_bank)
                }
                &&& final(user).positions@ == if seized > 0 {
                    store(
                        store(old(user).positions@, debt),
                        position_after_withdraw(*old(collateral_bank), collateral, seized),
                    )
                } else {
                    store(old(user).positions@, debt)
                }
            },
            Err(e) => {
                &&& *final(collateral_bank) == *old(collateral_bank)
                &&& *final(debt_bank) == *old(debt_bank)
                &&& *final(user) == *old(user)
                &&& e == liquidation_error(
                    *old(collateral_bank),
                    *old(debt_bank),
                    *old(user),
                    repay_amount,
                )
            },
        },
{
    let liquidatable = match is_liquidatable(collateral_bank, user) {
        Ok(liquidatable) => liquidatable,
        Err(e) => {
            return Err(e);
        },
    };
    if !liquidatable {
        return Err(ErrorCode::NotLiquidatable);
    }
    let debt = user.position(debt_bank.asset_id);
    let (new_debt_bank, new_debt, _) = match repay_to(debt_bank, &debt, repay_amount) {
        Ok(parts) => parts,
        Err(e) => {
            return Err(e);
        },
    };
    proof {
        lemma_store(user.positions@, new_debt);
    }
    let collateral = if collateral_bank.asset_id == debt_bank.asset_id {
        new_debt
    } else {
        user.position(collateral_bank.asset_id)
    };
    let seized = seized_collateral(&debt, &collateral, repay_amount);
    if seized == 0 {
        *debt_bank = new_debt_bank;
        user.put(new_debt);
        return Ok(0);
    }
    let (new_collateral_bank, new_collateral, _) = match withdraw_from(
        collateral_bank,
        &collateral,
        seized,
    ) {
        Ok(parts) => parts,
        Err(e) => {
            return Err(e);
        },
    };
    *debt_bank = new_debt_bank;
    *collateral_bank = new_collateral_bank;
    user.put(new_debt);
    user.put(new_collateral);
    Ok(seized)
}

} // verus!

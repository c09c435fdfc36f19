//! The operations of the protocol on its store: each finds the bank and the
//! user that it is for, applies the accounting, and names the transfer of
//! tokens that must go with it.
//!
//! An operation and its transfer are one transaction: the caller makes the
//! transfer that an operation returns, and keeps the new store only if the
//! transfer was made.

use vstd::prelude::*;
use crate::address::Address;
use crate::authority::{transfer_in, transfer_out, Transfer, TreasuryAuthority};
use crate::errors::ErrorCode;
use crate::policy::{
    bank_after_borrow, bank_after_repay, borrow_fits, borrow_from, collateral_before_seizure,
    debt_after_liquidation, is_liquidatable, liquidation_error, liquidation_seizure,
    liquidation_succeeds, max_borrowable, max_borrowable_fits, max_borrowable_spec,
    position_after_borrow, position_after_repay, repay_allowed, repay_fits, repay_to,
    seized_collateral,
};
use crate::registry::{
    bank_slot, bank_total, has_bank, lemma_ledger_update, lemma_total_untouched, principal,
    total_principal, user_slot, users_after, users_after_store, Lending, Side,
};
use crate::shares::{
    bank_after_deposit, bank_after_withdraw, deposit_fits, deposit_into, position_after_deposit,
    position_after_withdraw, withdraw_allowed, withdraw_fits, withdraw_from,
};
use crate::state::{lemma_store, store, Bank, Position, User};

verus! {

/// What an operation reads of a token mint.
#[derive(Clone, Copy, Debug, PartialEq, Eq)]
pub struct Mint {
    /// The asset's identity.
    pub address: Address,
    /// The number of decimals of the asset.
    pub decimals: u8,
}

/// The accounts of an operation that needs none.
#[derive(Clone, Copy, Debug, PartialEq, Eq)]
pub struct Initialize {
}

/// The accounts for creating the bank of an asset.
#[derive(Clone, Copy, Debug, PartialEq, Eq)]
pub struct InitializeBank {
    /// The administrator who creates the bank.
    pub signer: Address,
    /// The asset of the bank.
    pub mint: Mint,
}

/// The accounts for creating a user's record.
#[derive(Clone, Copy, Debug, PartialEq, Eq)]
pub struct InitializeAccount {
    /// The wallet whose record is created.
    pub signer: Address,
}

/// The accounts of a deposit.
#[derive(Clone, Copy, Debug, PartialEq, Eq)]
pub struct Deposit {
    /// The wallet that deposits.
    pub signer: Address,
    /// The asset deposited.
    pub mint: Mint,
    /// The treasury of the asset's bank.
    pub bank_token_account: Address,
    /// The token account that the wallet pays from.
    pub user_token_account: Address,
}

/// The accounts of a withdrawal.
#[derive(Clone, Copy, Debug, PartialEq, Eq)]
pub struct Withdraw {
    /// The wallet that withdraws.
    pub signer: Address,
    /// The asset withdrawn.
    pub mint: Mint,
    /// The treasury of the asset's bank.
    pub bank_token_account: Address,
    /// The nonce of the treasury's address.
    pub bank_token_account_bump: u8,
    /// The token account that the wallet is paid to.
    pub user_token_account: Address,
}

/// The accounts of a loan.
#[derive(Clone, Copy, Debug, PartialEq, Eq)]
pub struct Borrow {
    /// The wallet that borrows.
    pub signer: Address,
    /// The asset borrowed.
    pub mint: Mint,
    /// The treasury of the asset's bank.
    pub bank_token_account: Address,
    /// The nonce of the treasury's address.
    pub bank_token_account_bump: u8,
    /// The token account that the wallet is paid to.
    pub user_token_account: Address,
}

/// The accounts of a repayment.
#[derive(Clone, Copy, Debug, PartialEq, Eq)]
pub struct Repay {
    /// The wallet that repays.
    pub signer: Address,
    /// The asset repaid.
    pub mint: Mint,
    /// The treasury of the asset's bank.
    pub bank_token_account: Address,
    /// The token account that the wallet pays from.
    pub user_token_account: Address,
}

/// The accounts of a liquidation.
#[derive(Clone, Copy, Debug, PartialEq, Eq)]
pub struct Liquidate {
    /// The wallet that liquidates: it repays and gets the collateral.
    pub liquidator: Address,
    /// The wallet whose position is liquidated.
    pub borrower: Address,
    /// The asset of the collateral taken.
    pub collateral_mint: Mint,
    /// The asset of the debt repaid.
    pub borrowed_mint: Mint,
    /// The treasury of the collateral's bank.
    pub collateral_bank_token_account: Address,
    /// The nonce of that treasury's address.
    pub collateral_bank_token_account_bump: u8,
    /// The treasury of the debt's bank.
    pub borrowed_bank_token_account: Address,
    /// The liquidator's token account for the collateral.
    pub liquidator_collateral_token_account: Address,
    /// The liquidator's token account for the debt's asset.
    pub liquidator_borrowed_token_account: Address,
}

/// The two transfers of a liquidation.
#[derive(Clone, Copy, Debug, PartialEq, Eq)]
pub struct Liquidation {
    /// The liquidator pays the debt's treasury.
    pub repayment: Transfer,
    /// The collateral's treasury pays the liquidator.
    pub seizure: Transfer,
}

/// A deposit of `amount` under `ctx` is accepted.
pub open spec fn deposit_accepted(state: Lending, ctx: Deposit, amount: u64) -> bool {
    &&& state.has_bank(ctx.mint.address)
    &&& state.has_user(ctx.signer)
    &&& amount > 0
    &&& deposit_fits(
        state.bank(ctx.mint.address),
        state.user(ctx.signer).position_of(ctx.mint.address),
        amount,
    )
}

/// The error with which a deposit that is not accepted is refused.
pub open spec fn deposit_error(state: Lending, ctx: Deposit, amount: u64) -> ErrorCode {
    if !state.has_bank(ctx.mint.address) || !state.has_user(ctx.signer) {
        ErrorCode::NotInitialized
    } else if amount == 0 {
        ErrorCode::InsufficientFunds
    } else {
        ErrorCode::ArithmeticOverflow
    }
}

/// A withdrawal of `amount` under `ctx` is accepted.
pub open spec fn withdraw_accepted(state: Lending, ctx: Withdraw, amount: u64) -> bool {
    &&& state.has_bank(ctx.mint.address)
    &&& state.has_user(ctx.signer)
    &&& withdraw_allowed(state.user(ctx.signer).position_of(ctx.mint.address), amount)
    &&& withdraw_fits(
        state.bank(ctx.mint.address),
        state.user(ctx.signer).position_of(ctx.mint.address),
        amount,
    )
}

/// The error with which a withdrawal that is not accepted is refused.
pub open spec fn withdraw_error(state: Lending, ctx: Withdraw, amount: u64) -> ErrorCode {
    if !state.has_bank(ctx.mint.address) || !state.has_user(ctx.signer) {
        ErrorCode::NotInitialized
    } else if !withdraw_allowed(state.user(ctx.signer).position_of(ctx.mint.address), amount) {
        ErrorCode::InsufficientFunds
    } else {
        ErrorCode::ArithmeticOverflow
    }
}

/// Puts a new bank and a new position of one user into the store.
fn commit(
    state: &mut Lending,
    bank_at: usize,
    user_at: usize,
    new_bank: Bank,
    new_position: Position,
)
    requires
        old(state).wf(),
        bank_at < old(state).banks@.len(),
        user_at < old(state).users@.len(),
        new_bank.wf(),
        new_bank.asset_id == old(state).banks@[bank_at as int].asset_id,
        new_position.asset_id == new_bank.asset_id,
        forall|side: Side|
            #[trigger] bank_total(old(state).banks@[bank_at as int], side) + principal(
                new_position,
                side,
            ) <= bank_total(new_bank, side) + principal(
                old(state).users@[user_at as int].position_of(new_position.asset_id),
                side,
            ),
    ensures
        final(state).wf(),
        final(state).banks@ == old(state).banks@.update(bank_at as int, new_bank),
        users_after_store(old(state).users@, final(state).users@, user_at as int, new_position),
{
    state.banks[bank_at] = new_bank;
    state.users[user_at].put(new_position);
    proof {
        lemma_ledger_update(
            old(state).banks@,
            old(state).users@,
            bank_at as int,
            user_at as int,
            new_bank,
            state.users@,
            new_position,
        );
    }
}

/// Creates the bank of the asset `ctx.mint` with zeroed totals.
///
/// Fails with `AlreadyInitialized` exactly when the asset has a bank.
pub fn initialize_bank(
    state: &mut Lending,
    ctx: &InitializeBank,
    max_ltv: u64,
    liquidation_threshold: u64,
) -> (r: Result<(), ErrorCode>)
    requires
        old(state).wf(),
    ensures
        final(state).wf(),
        r is Ok <==> !old(state).has_bank(ctx.mint.address),
        match r {
            Ok(_) => {
                &&& final(state).banks@ == old(state).banks@.push(
                    Bank::empty(ctx.mint.address, max_ltv, liquidation_threshold),
                )
                &&& final(state).users == old(state).users
            },
            Err(e) => e == ErrorCode::AlreadyInitialized && *final(state) == *old(state),
        },
{
    match state.find_bank(ctx.mint.address) {
        Some(_) => Err(ErrorCode::AlreadyInitialized),
        None => {
            let bank = Bank::new(ctx.mint.address, max_ltv, liquidation_threshold);
            state.banks.push(bank);
            proof {
                let banks = old(state).banks@;
                let users = state.users@;
                let new_banks = state.banks@;
                assert forall|a: Address| has_bank(banks, a) implies has_bank(new_banks, a) by {
                    let i = bank_slot(banks, a);
                    assert(new_banks[i].asset_id == a);
                }
                assert forall|i: int, side: Side| 0 <= i < new_banks.len() implies total_principal(
                    users,
                    (#[trigger] new_banks[i]).asset_id,
                    side,
                ) <= #[trigger] bank_total(new_banks[i], side) by {
                    if i < banks.len() {
                        assert(new_banks[i] == banks[i]);
                        assert(total_principal(users, banks[i].asset_id, side) <= bank_total(
                            banks[i],
                            side,
                        ));
                    } else {
                        assert forall|u: int, k: int|
                            0 <= u < users.len() && 0 <= k < users[u].positions@.len() implies (
                        #[trigger] users[u].positions@[k]).asset_id != ctx.mint.address by {
                            assert(has_bank(banks, users[u].positions@[k].asset_id));
                        }
                        lemma_total_untouched(users, ctx.mint.address, side);
                    }
                }
                assert forall|i: int, j: int| 0 <= i < j < new_banks.len() implies (
                #[trigger] new_banks[i]).asset_id != (#[trigger] new_banks[j]).asset_id by {
                    if j < banks.len() {
                        assert(banks[i].asset_id != banks[j].asset_id);
                    } else {
                        assert(new_banks[i] == banks[i]);
                    }
                }
            }
            Ok(())
        },
    }
}

/// Creates the record of the wallet `ctx.signer`, with `usdc_address` as
/// its primary collateral asset and no positions.
///
/// Fails with `AlreadyInitialized` exactly when the wallet has a record.
pub fn initialize_account(state: &mut Lending, ctx: &InitializeAccount, usdc_address: Address) -> (r:
    Result<(), ErrorCode>)
    requires
        old(state).wf(),
    ensures
        final(state).wf(),
        r is Ok <==> !old(state).has_user(ctx.signer),
        match r {
            Ok(_) => {
                &&& final(state).banks == old(state).banks
                &&& final(state).users@.len() == old(state).users@.len() + 1
                &&& final(state).users@.drop_last() == old(state).users@
                &&& final(state).users@.last().owner == ctx.signer
                &&& final(state).users@.last().collateral_asset_id == usdc_address
                &&& final(state).users@.last().positions@ == Seq::<Position>::empty()
            },
            Err(e) => e == ErrorCode::AlreadyInitialized && *final(state) == *old(state),
        },
{
    match state.find_user(ctx.signer) {
        Some(_) => Err(ErrorCode::AlreadyInitialized),
        None => {
            let user = User::new(ctx.signer, usdc_address);
            state.users.push(user);
            proof {
                let banks = state.banks@;
                let users = old(state).users@;
                let new_users = state.users@;
                assert(new_users.drop_last() =~= users);
                assert forall|i: int, side: Side| 0 <= i < banks.len() implies total_principal(
                    new_users,
                    (#[trigger] banks[i]).asset_id,
                    side,
                ) <= #[trigger] bank_total(banks[i], side) by {
                    assert(total_principal(users, banks[i].asset_id, side) <= bank_total(
                        banks[i],
                        side,
                    ));
                }
                assert forall|i: int, j: int| 0 <= i < j < new_users.len() implies (
                #[trigger] new_users[i]).owner != (#[trigger] new_users[j]).owner by {
                    if j < users.len() {
                        assert(users[i].owner != users[j].owner);
                    } else {
                        assert(new_users[i] == users[i]);
                    }
                }
                assert forall|i: int, k: int|
                    0 <= i < new_users.len() && 0 <= k < new_users[i].positions@.len() implies has_bank(
                    banks,
                    (#[trigger] new_users[i].positions@[k]).asset_id,
                ) by {
                    assert(new_users[i] == users[i]);
                    assert(has_bank(banks, users[i].positions@[k].asset_id));
                }
            }
            Ok(())
        },
    }
}

/// Deposits `amount_to_deposit` of the asset `ctx.mint` for the wallet
/// `ctx.signer`, and returns the transfer from the wallet's token account
/// into the treasury.
///
/// Fails with `NotInitialized` where the bank or the user's record is
/// missing, with `InsufficientFunds` on an amount of zero, and with
/// `ArithmeticOverflow` where a total or a balance would leave the 64-bit
/// range. A failure changes nothing.
pub fn deposit(state: &mut Lending, ctx: &Deposit, amount_to_deposit: u64) -> (r: Result<
    Transfer,
    ErrorCode,
>)
    requires
        old(state).wf(),
    ensures
        final(state).wf(),
        r is Ok <==> deposit_accepted(*old(state), *ctx, amount_to_deposit),
        match r {
            Ok(transfer) => {
                let asset = ctx.mint.address;
                let bank = old(state).bank(asset);
                let position = old(state).user(ctx.signer).position_of(asset);
                &&& final(state).banks@ == old(state).banks@.update(
                    bank_slot(old(state).banks@, asset),
                    bank_after_deposit(bank, amount_to_deposit),
                )
                &&& users_after_store(
                    old(state).users@,
                    final(state).users@,
                    user_slot(old(state).users@, ctx.signer),
                    position_after_deposit(bank, position, amount_to_deposit),
                )
                &&& transfer == transfer_in(
                    ctx.signer,
                    ctx.user_token_account,
                    ctx.bank_token_account,
                    asset,
                    ctx.mint.decimals,
                    amount_to_deposit,
                )
            },
            Err(e) => {
                &&& *final(state) == *old(state)
                &&& e == deposit_error(*old(state), *ctx, amount_to_deposit)
            },
        },
{
    let bank_at = match state.find_bank(ctx.mint.address) {
        Some(i) => i,
        None => {
            return Err(ErrorCode::NotInitialized);
        },
    };
    let user_at = match state.find_user(ctx.signer) {
        Some(i) => i,
        None => {
            return Err(ErrorCode::NotInitialized);
        },
    };
    let position = state.users[user_at].position(ctx.mint.address);
    let (new_bank, new_position, _) = match deposit_into(
        &state.banks[bank_at],
        &position,
        amount_to_deposit,
    ) {
        Ok(parts) => parts,
        Err(e) => {
            return Err(e);
        },
    };
    commit(state, bank_at, user_at, new_bank, new_position);
    Ok(
        Transfer {
            from: ctx.user_token_account,
            to: ctx.bank_token_account,
            authority: ctx.signer,
            mint: ctx.mint.address,
            amount: amount_to_deposit,
            decimals: ctx.mint.decimals,
            signer: None,
        },
    )
}

/// Withdraws `amount_to_withdraw` of the asset `ctx.mint` for the wallet
/// `ctx.signer`, and returns the transfer out of the treasury into the
/// wallet's token account, signed by the treasury authority.
///
/// Fails with `NotInitialized` where the bank or the user's record is
/// missing, with `InsufficientFunds` unless the amount is positive and
/// within the user's principal in the bank, and with `ArithmeticOverflow`
/// where a total or a balance would go below zero. A failure changes nothing.
pub fn process_withdraw(state: &mut Lending, ctx: &Withdraw, amount_to_withdraw: u64) -> (r: Result<
    Transfer,
    ErrorCode,
>)
    requires
        old(state).wf(),
    ensures
        final(state).wf(),
        r is Ok <==> withdraw_accepted(*old(state), *ctx, amount_to_withdraw),
        match r {
            Ok(transfer) => {
                let asset = ctx.mint.address;
                let bank = old(state).bank(asset);
                let position = old(state).user(ctx.signer).position_of(asset);
                &&& final(state).banks@ == old(state).banks@.update(
                    bank_slot(old(state).banks@, asset),
                    bank_after_withdraw(bank, amount_to_withdraw),
                )
                &&& users_after_store(
                    old(state).users@,
                    final(state).users@,
                    user_slot(old(state).users@, ctx.signer),
                    position_after_withdraw(bank, position, amount_to_withdraw),
                )
                &&& transfer == transfer_out(
                    ctx.bank_token_account,
                    ctx.user_token_account,
                    asset,
                    ctx.mint.decimals,
                    ctx.bank_token_account_bump,
                    amount_to_withdraw,
                )
            },
            Err(e) => {
                &&& *final(state) == *old(state)
                &&& e == withdraw_error(*old(state), *ctx, amount_to_withdraw)
            },
        },
{
    let bank_at = match state.find_bank(ctx.mint.address) {
        Some(i) => i,
        None => {
            return Err(ErrorCode::NotInitialized);
        },
    };
    let user_at = match state.find_user(ctx.signer) {
        Some(i) => i,
        None => {
            return Err(ErrorCode::NotInitialized);
        },
    };
    let position = state.users[user_at].position(ctx.mint.address);
    let (new_bank, new_position, _) = match withdraw_from(
        &state.banks[bank_at],
        &position,
        amount_to_withdraw,
    ) {
        Ok(parts) => parts,
        Err(e) => {
            return Err(e);
        },
    };
    commit(state, bank_at, user_at, new_bank, new_position);
    Ok(
        Transfer {
            from: ctx.bank_token_account,
            to: ctx.user_token_account,
            authority: ctx.bank_token_account,
            mint: ctx.mint.address,
            amount: amount_to_withdraw,
            decimals: ctx.mint.decimals,
            signer: Some(TreasuryAuthority::new(ctx.mint.address, ctx.bank_token_account_bump)),
        },
    )
}

/// A loan of `amount` under `ctx` is accepted.
pub open spec fn borrow_accepted(state: Lending, ctx: Borrow, amount: u64) -> bool {
    let bank = state.bank(ctx.mint.address);
    let user = state.user(ctx.signer);
    &&& state.has_bank(ctx.mint.address)
    &&& state.has_user(ctx.signer)
    &&& max_borrowable_fits(bank, user)
    &&& amount <= max_borrowable_spec(bank, user)
    &&& borrow_fits(bank, user.position_of(ctx.mint.address), amount)
}

/// The error with which a loan that is not accepted is refused.
pub open spec fn borrow_error(state: Lending, ctx: Borrow, amount: u64) -> ErrorCode {
    let bank = state.bank(ctx.mint.address);
    let user = state.user(ctx.signer);
    if !state.has_bank(ctx.mint.address) || !state.has_user(ctx.signer) {
        ErrorCode::NotInitialized
    } else if max_borrowable_fits(bank, user) && amount > max_borrowable_spec(bank, user) {
        ErrorCode::ExceedsMaxLTV
    } else {
        ErrorCode::ArithmeticOverflow
    }
}

/// A repayment of `amount` under `ctx` is accepted.
pub open spec fn repay_accepted(state: Lending, ctx: Repay, amount: u64) -> bool {
    &&& state.has_bank(ctx.mint.address)
    &&& state.has_user(ctx.signer)
    &&& repay_allowed(state.user(ctx.signer).position_of(ctx.mint.address), amount)
    &&& repay_fits(
        state.bank(ctx.mint.address),
        state.user(ctx.signer).position_of(ctx.mint.address),
        amount,
    )
}

/// The error with which a repayment that is not accepted is refused.
pub open spec fn repay_error(state: Lending, ctx: Repay, amount: u64) -> ErrorCode {
    if !state.has_bank(ctx.mint.address) || !state.has_user(ctx.signer) {
        ErrorCode::NotInitialized
    } else if !repay_allowed(state.user(ctx.signer).position_of(ctx.mint.address), amount) {
        ErrorCode::InsufficientFunds
    } else {
        ErrorCode::ArithmeticOverflow
    }
}

/// Lends `amount_to_borrow` of the asset `ctx.mint` to the wallet
/// `ctx.signer`, and returns the transfer out of the treasury into the
/// wallet's token account, signed by the treasury authority.
///
/// Fails with `NotInitialized` where the bank or the user's record is
/// missing, with `ExceedsMaxLTV` exactly when the amount is above what the
/// user may still borrow from the bank, and with `ArithmeticOverflow` where
/// that ceiling cannot be computed or a total or a balance would leave the
/// 64-bit range. A failure changes nothing.
pub fn process_borrow(state: &mut Lending, ctx: &Borrow, amount_to_borrow: u64) -> (r: Result<
    Transfer,
    ErrorCode,
>)
    requires
        old(state).wf(),
    ensures
        final(state).wf(),
        r is Ok <==> borrow_accepted(*old(state), *ctx, amount_to_borrow),
        match r {
            Ok(transfer) => {
                let asset = ctx.mint.address;
                let bank = old(state).bank(asset);
                let position = old(state).user(ctx.signer).position_of(asset);
                &&& final(state).banks@ == old(state).banks@.update(
                    bank_slot(old(state).banks@, asset),
                    bank_after_borrow(bank, amount_to_borrow),
                )
                &&& users_after_store(
                    old(state).users@,
                    final(state).users@,
                    user_slot(old(state).users@, ctx.signer),
                    position_after_borrow(bank, position, amount_to_borrow),
                )
                &&& transfer == transfer_out(
                    ctx.bank_token_account,
                    ctx.user_token_account,
                    asset,
                    ctx.mint.decimals,
                    ctx.bank_token_account_bump,
                    amount_to_borrow,
                )
            },
            Err(e) => {
                &&& *final(state) == *old(state)
                &&& e == borrow_error(*old(state), *ctx, amount_to_borrow)
            },
        },
{
    let bank_at = match state.find_bank(ctx.mint.address) {
        Some(i) => i,
        None => {
            return Err(ErrorCode::NotInitialized);
        },
    };
    let user_at = match state.find_user(ctx.signer) {
        Some(i) => i,
        None => {
            return Err(ErrorCode::NotInitialized);
        },
    };
    let ceiling = match max_borrowable(&state.banks[bank_at], &state.users[user_at]) {
        Ok(ceiling) => ceiling,
        Err(e) => {
            return Err(e);
        },
    };
    if amount_to_borrow > ceiling {
        return Err(ErrorCode::ExceedsMaxLTV);
    }
    let position = state.users[user_at].position(ctx.mint.address);
    let (new_bank, new_position, _) = match borrow_from(
        &state.banks[bank_at],
        &position,
        amount_to_borrow,
    ) {
        Ok(parts) => parts,
        Err(e) => {
            return Err(e);
        },
    };
    commit(state, bank_at, user_at, new_bank, new_position);
    Ok(
        Transfer {
            from: ctx.bank_token_account,
            to: ctx.user_token_account,
            authority: ctx.bank_token_account,
            mint: ctx.mint.address,
            amount: amount_to_borrow,
            decimals: ctx.mint.decimals,
            signer: Some(TreasuryAuthority::new(ctx.mint.address, ctx.bank_token_account_bump)),
        },
    )
}

/// Repays `amount_to_repay` of the debt of the wallet `ctx.signer` in the
/// asset `ctx.mint`, and returns the transfer from the wallet's token
/// account into the treasury.
///
/// Fails with `NotInitialized` where the bank or the user's record is
/// missing, with `InsufficientFunds` unless the amount is positive and
/// within the user's debt in the bank, and with `ArithmeticOverflow` where a
/// total or a balance would go below zero. A failure changes nothing.
pub fn process_repay(state: &mut Lending, ctx: &Repay, amount_to_repay: u64) -> (r: Result<
    Transfer,
    ErrorCode,
>)
    requires
        old(state).wf(),
    ensures
        final(state).wf(),
        r is Ok <==> repay_accepted(*old(state), *ctx, amount_to_repay),
        match r {
            Ok(transfer) => {
                let asset = ctx.mint.address;
                let bank = old(state).bank(asset);
                let position = old(state).user(ctx.signer).position_of(asset);
                &&& final(state).banks@ == old(state).banks@.update(
                    bank_slot(old(state).banks@, asset),
                    bank_after_repay(bank, amount_to_repay),
                )
                &&& users_after_store(
                    old(state).users@,
                    final(state).users@,
                    user_slot(old(state).users@, ctx.signer),
                    position_after_repay(bank, position, amount_to_repay),
                )
                &&& transfer == transfer_in(
                    ctx.signer,
                    ctx.user_token_account,
                    ctx.bank_token_account,
                    asset,
                    ctx.mint.decimals,
                    amount_to_repay,
                )
            },
            Err(e) => {
                &&& *final(state) == *old(state)
                &&& e == repay_error(*old(state), *ctx, amount_to_repay)
            },
        },
{
    let bank_at = match state.find_bank(ctx.mint.address) {
        Some(i) => i,
        None => {
            return Err(ErrorCode::NotInitialized);
        },
    };
    let user_at = match state.find_user(ctx.signer) {
        Some(i) => i,
        None => {
            return Err(ErrorCode::NotInitialized);
        },
    };
    let position = state.users[user_at].position(ctx.mint.address);
    let (new_bank, new_position, _) = match repay_to(
        &state.banks[bank_at],
        &position,
        amount_to_repay,
    ) {
        Ok(parts) => parts,
        Err(e) => {
            return Err(e);
        },
    };
    commit(state, bank_at, user_at, new_bank, new_position);
    Ok(
        Transfer {
            from: ctx.user_token_account,
            to: ctx.bank_token_account,
            authority: ctx.signer,
            mint: ctx.mint.address,
            amount: amount_to_repay,
            decimals: ctx.mint.decimals,
            signer: None,
        },
    )
}

/// A liquidation that repays `amount` under `ctx` is accepted.
pub open spec fn liquidate_accepted(state: Lending, ctx: Liquidate, amount: u64) -> bool {
    &&& state.has_bank(ctx.collateral_mint.address)
    &&& state.has_bank(ctx.borrowed_mint.address)
    &&& state.has_user(ctx.borrower)
    &&& liquidation_succeeds(
        state.bank(ctx.collateral_mint.address),
        state.bank(ctx.borrowed_mint.address),
        state.user(ctx.borrower),
        amount,
    )
}

/// The error with which a liquidation that is not accepted is refused.
pub open spec fn liquidate_error(state: Lending, ctx: Liquidate, amount: u64) -> ErrorCode {
    if !state.has_bank(ctx.collateral_mint.address) || !state.has_bank(ctx.borrowed_mint.address)
        || !state.has_user(ctx.borrower) {
        ErrorCode::NotInitialized
    } else {
        liquidation_error(
            state.bank(ctx.collateral_mint.address),
            state.bank(ctx.borrowed_mint.address),
            state.user(ctx.borrower),
            amount,
        )
    }
}

/// The banks after a liquidation that repays `amount` under `ctx`: the
/// debt's bank after the repayment, then the collateral's bank after the
/// collateral seized has left it.
pub open spec fn banks_after_liquidation(state: Lending, ctx: Liquidate, amount: u64) -> Seq<Bank> {
    let collateral_bank = state.bank(ctx.collateral_mint.address);
    let debt_bank = state.bank(ctx.borrowed_mint.address);
    let collateral_at = bank_slot(state.banks@, ctx.collateral_mint.address);
    let debt_at = bank_slot(state.banks@, ctx.borrowed_mint.address);
    let seized = liquidation_seizure(collateral_bank, debt_bank, state.user(ctx.borrower), amount);
    let repaid = state.banks@.update(debt_at, bank_after_repay(debt_bank, amount));
    if seized > 0 {
        repaid.update(collateral_at, bank_after_withdraw(repaid[collateral_at], seized as u64))
    } else {
        repaid
    }
}

/// The borrower's positions after a liquidation that repays `amount` under `ctx`.
pub open spec fn positions_after_liquidation(state: Lending, ctx: Liquidate, amount: u64) -> Seq<
    Position,
> {
    let collateral_bank = state.bank(ctx.collateral_mint.address);
    let debt_bank = state.bank(ctx.borrowed_mint.address);
    let user = state.user(ctx.borrower);
    let seized = liquidation_seizure(collateral_bank, debt_bank, user, amount);
    let repaid = store(user.positions@, debt_after_liquidation(debt_bank, user, amount));
    if seized > 0 {
        store(
            repaid,
            position_after_withdraw(
                collateral_bank,
                collateral_before_seizure(collateral_bank, debt_bank, user, amount),
                seized as u64,
            ),
        )
    } else {
        repaid
    }
}

/// Liquidates part of the position of the wallet `ctx.borrower`: the
/// liquidator repays `amount_to_repay` of the borrower's debt in the asset
/// `ctx.borrowed_mint` and gets collateral out of the borrower's position in
/// the asset `ctx.collateral_mint`. Returns the two transfers.
///
/// Fails with `NotInitialized` where a bank or the borrower's record is
/// missing, with `NotLiquidatable` unless the position may be liquidated
/// under the threshold of the collateral's bank, with `InsufficientFunds`
/// unless the amount is positive and within the debt, and with
/// `ArithmeticOverflow` where a sum leaves the 64-bit range or a total or a
/// balance would go below zero. A failure changes nothing.
pub fn process_liquidate(state: &mut Lending, ctx: &Liquidate, amount_to_repay: u64) -> (r: Result<
    Liquidation,
    ErrorCode,
>)
    requires
        old(state).wf(),
    ensures
        final(state).wf(),
        r is Ok <==> liquidate_accepted(*old(state), *ctx, amount_to_repay),
        match r {
            Ok(liquidation) => {
                let seized = liquidation_seizure(
                    old(state).bank(ctx.collateral_mint.address),
                    old(state).bank(ctx.borrowed_mint.address),
                    old(state).user(ctx.borrower),
                    amount_to_repay,
                );
                &&& final(state).banks@ == banks_after_liquidation(
                    *old(state),
                    *ctx,
                    amount_to_repay,
                )
                &&& users_after(
                    old(state).users@,
                    final(state).users@,
                    user_slot(old(state).users@, ctx.borrower),
                    positions_after_liquidation(*old(state), *ctx, amount_to_repay),
                )
                &&& liquidation.repayment == transfer_in(
                    ctx.liquidator,
                    ctx.liquidator_borrowed_token_account,
                    ctx.borrowed_bank_token_account,
                    ctx.borrowed_mint.address,
                    ctx.borrowed_mint.decimals,
                    amount_to_repay,
                )
                &&& liquidation.seizure == transfer_out(
                    ctx.collateral_bank_token_account,
                    ctx.liquidator_collateral_token_account,
                    ctx.collateral_mint.address,
                    ctx.collateral_mint.decimals,
                    ctx.collateral_bank_token_account_bump,
                    seized as u64,
                )
            },
            Err(e) => {
                &&& *final(state) == *old(state)
                &&& e == liquidate_error(*old(state), *ctx, amount_to_repay)
            },
        },
{
    let collateral_at = match state.find_bank(ctx.collateral_mint.address) {
        Some(i) => i,
        None => {
            return Err(ErrorCode::NotInitialized);
        },
    };
    let debt_at = match state.find_bank(ctx.borrowed_mint.address) {
        Some(i) => i,
        None => {
            return Err(ErrorCode::NotInitialized);
        },
    };
    let user_at = match state.find_user(ctx.borrower) {
        Some(i) => i,
        None => {
            return Err(ErrorCode::NotInitialized);
        },
    };
    let liquidatable = match is_liquidatable(&state.banks[collateral_at], &state.users[user_at]) {
        Ok(liquidatable) => liquidatable,
        Err(e) => {
            return Err(e);
        },
    };
    if !liquidatable {
        return Err(ErrorCode::NotLiquidatable);
    }
    let debt = state.users[user_at].position(ctx.borrowed_mint.address);
    let (new_debt_bank, new_debt, _) = match repay_to(
        &state.banks[debt_at],
        &debt,
        amount_to_repay,
    ) {
        Ok(parts) => parts,
        Err(e) => {
            return Err(e);
        },
    };
    proof {
        lemma_store(state.users@[user_at as int].positions@, new_debt);
    }
    let same_bank = collateral_at == debt_at;
    let collateral_bank = if same_bank {
        new_debt_bank
    } else {
        state.banks[collateral_at]
    };
    let collateral = if same_bank {
        new_debt
    } else {
        state.users[user_at].position(ctx.collateral_mint.address)
    };
    let seized = seized_collateral(&debt, &collateral, amount_to_repay);
    let repayment = Transfer {
        from: ctx.liquidator_borrowed_token_account,
        to: ctx.borrowed_bank_token_account,
        authority: ctx.liquidator,
        mint: ctx.borrowed_mint.address,
        amount: amount_to_repay,
        decimals: ctx.borrowed_mint.decimals,
        signer: None,
    };
    let seizure = Transfer {
        from: ctx.collateral_bank_token_account,
        to: ctx.liquidator_collateral_token_account,
        authority: ctx.collateral_bank_token_account,
        mint: ctx.collateral_mint.address,
        amount: seized,
        decimals: ctx.collateral_mint.decimals,
        signer: Some(
            TreasuryAuthority::new(
                ctx.collateral_mint.address,
                ctx.collateral_bank_token_account_bump,
            ),
        ),
    };
    if seized == 0 {
        commit(state, debt_at, user_at, new_debt_bank, new_debt);
        return Ok(Liquidation { repayment, seizure });
    }
    let (new_collateral_bank, new_collateral, _) = match withdraw_from(
        &collateral_bank,
        &collateral,
        seized,
    ) {
        Ok(parts) => parts,
        Err(e) => {
            return Err(e);
        },
    };
    commit(state, debt_at, user_at, new_debt_bank, new_debt);
    commit(state, collateral_at, user_at, new_collateral_bank, new_collateral);
    Ok(Liquidation { repayment, seizure })
}

/// Concludes an operation once its transfer was attempted. The operation
/// and the transfer stand or fall together: where the transfer was made the
/// store is the one that the operation left, and where it failed the store
/// is the one from before the operation, with `TransferFailed`.
pub fn settle(before: Lending, after: Lending, transfer_made: bool) -> (r: (
    Lending,
    Result<(), ErrorCode>,
))
    ensures
        r.0 == if transfer_made {
            after
        } else {
            before
        },
        r.1 == if transfer_made {
            Ok::<(), ErrorCode>(())
        } else {
            Err::<(), ErrorCode>(ErrorCode::TransferFailed)
        },
{
    if transfer_made {
        (after, Ok(()))
    } else {
        (before, Err(ErrorCode::TransferFailed))
    }
}

} // verus!

use lending::{
    deposit, initialize_account, initialize_bank, process_borrow, process_liquidate,
    process_repay, process_withdraw, settle, Address, Bank, Borrow, Deposit, ErrorCode,
    Initialize, InitializeAccount, InitializeBank, Lending, Liquidate, Mint, Position, Repay,
    Transfer, TreasuryAuthority, User, Withdraw, RATIO_SCALE,
};

const SOL: u8 = 1;
const USDC: u8 = 2;
const ALICE: u8 = 10;
const BOB: u8 = 11;
const CAROL: u8 = 12;

fn addr(n: u8) -> Address {
    Address::new([n; 32])
}

fn mint(asset: u8) -> Mint {
    Mint { address: addr(asset), decimals: 6 }
}

fn treasury(asset: u8) -> Address {
    addr(100 + asset)
}

fn wallet_tokens(wallet: u8, asset: u8) -> Address {
    addr(wallet * 10 + asset)
}

fn deposit_ctx(wallet: u8, asset: u8) -> Deposit {
    Deposit {
        signer: addr(wallet),
        mint: mint(asset),
        bank_token_account: treasury(asset),
        user_token_account: wallet_tokens(wallet, asset),
    }
}

fn withdraw_ctx(wallet: u8, asset: u8) -> Withdraw {
    Withdraw {
        signer: addr(wallet),
        mint: mint(asset),
        bank_token_account: treasury(asset),
        bank_token_account_bump: 254,
        user_token_account: wallet_tokens(wallet, asset),
    }
}

fn borrow_ctx(wallet: u8, asset: u8) -> Borrow {
    Borrow {
        signer: addr(wallet),
        mint: mint(asset),
        bank_token_account: treasury(asset),
        bank_token_account_bump: 254,
        user_token_account: wallet_tokens(wallet, asset),
    }
}

fn repay_ctx(wallet: u8, asset: u8) -> Repay {
    Repay {
        signer: addr(wallet),
        mint: mint(asset),
        bank_token_account: treasury(asset),
        user_token_account: wallet_tokens(wallet, asset),
    }
}

fn liquidate_ctx(liquidator: u8, borrower: u8, collateral: u8, borrowed: u8) -> Liquidate {
    Liquidate {
        liquidator: addr(liquidator),
        borrower: addr(borrower),
        collateral_mint: mint(collateral),
        borrowed_mint: mint(borrowed),
        collateral_bank_token_account: treasury(collateral),
        collateral_bank_token_account_bump: 253,
        borrowed_bank_token_account: treasury(borrowed),
        liquidator_collateral_token_account: wallet_tokens(liquidator, collateral),
        liquidator_borrowed_token_account: wallet_tokens(liquidator, borrowed),
    }
}

fn store_with(assets: &[(u8, u64, u64)], wallets: &[u8]) -> Lending {
    let mut state = Lending::new();
    for (asset, max_ltv, threshold) in assets {
        let ctx = InitializeBank { signer: addr(1), mint: mint(*asset) };
        initialize_bank(&mut state, &ctx, *max_ltv, *threshold).unwrap();
    }
    for wallet in wallets {
        let ctx = InitializeAccount { signer: addr(*wallet) };
        initialize_account(&mut state, &ctx, addr(USDC)).unwrap();
    }
    state
}

fn bank_of(state: &Lending, asset: u8) -> Bank {
    state.banks[state.find_bank(addr(asset)).unwrap()]
}

fn position_of(state: &Lending, wallet: u8, asset: u8) -> Position {
    state.users[state.find_user(addr(wallet)).unwrap()].position(addr(asset))
}

fn deposited_by_all(state: &Lending, asset: u8) -> u128 {
    state.users.iter().map(|u| u.position(addr(asset)).deposited_amount as u128).sum()
}

fn borrowed_by_all(state: &Lending, asset: u8) -> u128 {
    state.users.iter().map(|u| u.position(addr(asset)).borrowed_amount as u128).sum()
}

#[test]
fn new_store_is_empty() {
    let state = Lending::new();
    assert!(state.banks.is_empty());
    assert!(state.users.is_empty());
    assert_eq!(state.find_bank(addr(SOL)), None);
    assert_eq!(state.find_user(addr(ALICE)), None);
}

#[test]
fn initialize_bank_creates_a_bank_with_zeroed_totals() {
    let mut state = Lending::new();
    let ctx = InitializeBank { signer: addr(1), mint: mint(SOL) };
    assert_eq!(initialize_bank(&mut state, &ctx, 8_000, 9_000), Ok(()));
    assert_eq!(state.banks.len(), 1);
    let bank = state.banks[0];
    assert_eq!(bank.asset_id, addr(SOL));
    assert_eq!(bank.total_deposits, 0);
    assert_eq!(bank.total_deposit_shares, 0);
    assert_eq!(bank.total_borrows, 0);
    assert_eq!(bank.total_borrow_shares, 0);
    assert_eq!(bank.max_ltv, 8_000);
    assert_eq!(bank.liquidation_threshold, 9_000);
    assert_eq!(bank, Bank::new(addr(SOL), 8_000, 9_000));
}

#[test]
fn initialize_bank_twice_is_already_initialized() {
    let mut state = store_with(&[(SOL, 8_000, 9_000)], &[]);
    let ctx = InitializeBank { signer: addr(1), mint: mint(SOL) };
    let before = state.clone();
    assert_eq!(initialize_bank(&mut state, &ctx, 1, 2), Err(ErrorCode::AlreadyInitialized));
    assert_eq!(state, before);
    let other = InitializeBank { signer: addr(1), mint: mint(USDC) };
    assert_eq!(initialize_bank(&mut state, &other, 1, 2), Ok(()));
    assert_eq!(state.banks.len(), 2);
}

#[test]
fn initialize_account_creates_a_record_without_positions() {
    let mut state = Lending::new();
    let ctx = InitializeAccount { signer: addr(ALICE) };
    assert_eq!(initialize_account(&mut state, &ctx, addr(USDC)), Ok(()));
    assert_eq!(state.users.len(), 1);
    assert_eq!(state.users[0], User::new(addr(ALICE), addr(USDC)));
    assert_eq!(state.users[0].owner, addr(ALICE));
    assert_eq!(state.users[0].collateral_asset_id, addr(USDC));
    assert!(state.users[0].positions.is_empty());
}

#[test]
fn initialize_account_twice_is_already_initialized() {
    let mut state = store_with(&[], &[ALICE]);
    let ctx = InitializeAccount { signer: addr(ALICE) };
    let before = state.clone();
    assert_eq!(
        initialize_account(&mut state, &ctx, addr(SOL)),
        Err(ErrorCode::AlreadyInitialized)
    );
    assert_eq!(state, before);
}

#[test]
fn operations_without_bank_or_user_are_not_initialized() {
    let mut state = store_with(&[(SOL, 8_000, 9_000)], &[ALICE]);
    let before = state.clone();
    assert_eq!(
        deposit(&mut state, &deposit_ctx(ALICE, USDC), 5),
        Err(ErrorCode::NotInitialized)
    );
    assert_eq!(deposit(&mut state, &deposit_ctx(BOB, SOL), 5), Err(ErrorCode::NotInitialized));
    assert_eq!(
        process_withdraw(&mut state, &withdraw_ctx(BOB, SOL), 5),
        Err(ErrorCode::NotInitialized)
    );
    assert_eq!(
        process_borrow(&mut state, &borrow_ctx(ALICE, USDC), 5),
        Err(ErrorCode::NotInitialized)
    );
    assert_eq!(
        process_repay(&mut state, &repay_ctx(BOB, SOL), 5),
        Err(ErrorCode::NotInitialized)
    );
    assert_eq!(
        process_liquidate(&mut state, &liquidate_ctx(BOB, ALICE, SOL, USDC), 5),
        Err(ErrorCode::NotInitialized)
    );
    assert_eq!(state, before);
}

#[test]
fn scenario_two_depositors_then_first_withdraws_all() {
    let mut state = store_with(&[(SOL, 8_000, 9_000)], &[ALICE, BOB]);

    let first = deposit(&mut state, &deposit_ctx(ALICE, SOL), 1_000).unwrap();
    assert_eq!(first.amount, 1_000);
    assert_eq!(bank_of(&state, SOL).total_deposits, 1_000);
    assert_eq!(bank_of(&state, SOL).total_deposit_shares, 1_000);
    assert_eq!(position_of(&state, ALICE, SOL).deposited_amount, 1_000);

    deposit(&mut state, &deposit_ctx(BOB, SOL), 500).unwrap();
    assert_eq!(position_of(&state, BOB, SOL).deposited_shares, 500);
    assert_eq!(bank_of(&state, SOL).total_deposits, 1_500);
    assert_eq!(bank_of(&state, SOL).total_deposit_shares, 1_500);

    let out = process_withdraw(&mut state, &withdraw_ctx(ALICE, SOL), 1_000).unwrap();
    assert_eq!(out.amount, 1_000);
    assert_eq!(bank_of(&state, SOL).total_deposits, 500);
    assert_eq!(bank_of(&state, SOL).total_deposit_shares, 500);
    assert_eq!(position_of(&state, ALICE, SOL).deposited_amount, 0);
    assert_eq!(position_of(&state, ALICE, SOL).deposited_shares, 0);
    assert_eq!(position_of(&state, BOB, SOL).deposited_amount, 500);
}

#[test]
fn scenario_withdraw_one_more_than_deposited_fails_and_changes_nothing() {
    let mut state = store_with(&[(SOL, 8_000, 9_000)], &[ALICE, BOB]);
    deposit(&mut state, &deposit_ctx(ALICE, SOL), 1_000).unwrap();
    deposit(&mut state, &deposit_ctx(BOB, SOL), 500).unwrap();
    let before = state.clone();
    assert_eq!(
        process_withdraw(&mut state, &withdraw_ctx(ALICE, SOL), 1_001),
        Err(ErrorCode::InsufficientFunds)
    );
    assert_eq!(state, before);
    assert_eq!(
        process_withdraw(&mut state, &withdraw_ctx(ALICE, SOL), 0),
        Err(ErrorCode::InsufficientFunds)
    );
    assert_eq!(state, before);
}

#[test]
fn deposit_of_zero_through_the_store_is_refused() {
    let mut state = store_with(&[(SOL, 8_000, 9_000)], &[ALICE]);
    let before = state.clone();
    assert_eq!(
        deposit(&mut state, &deposit_ctx(ALICE, SOL), 0),
        Err(ErrorCode::InsufficientFunds)
    );
    assert_eq!(state, before);
}

#[test]
fn deposit_that_overflows_through_the_store_is_refused() {
    let mut state = store_with(&[(SOL, 8_000, 9_000)], &[ALICE, BOB]);
    deposit(&mut state, &deposit_ctx(ALICE, SOL), u64::MAX).unwrap();
    let before = state.clone();
    assert_eq!(
        deposit(&mut state, &deposit_ctx(BOB, SOL), 1),
        Err(ErrorCode::ArithmeticOverflow)
    );
    assert_eq!(state, before);
}

#[test]
fn deposit_names_the_transfer_into_the_treasury() {
    let mut state = store_with(&[(SOL, 8_000, 9_000)], &[ALICE]);
    let transfer = deposit(&mut state, &deposit_ctx(ALICE, SOL), 42).unwrap();
    assert_eq!(
        transfer,
        Transfer {
            from: wallet_tokens(ALICE, SOL),
            to: treasury(SOL),
            authority: addr(ALICE),
            mint: addr(SOL),
            amount: 42,
            decimals: 6,
            signer: None,
        }
    );
}

#[test]
fn withdraw_names_the_transfer_out_of_the_treasury() {
    let mut state = store_with(&[(SOL, 8_000, 9_000)], &[ALICE]);
    deposit(&mut state, &deposit_ctx(ALICE, SOL), 42).unwrap();
    let transfer = process_withdraw(&mut state, &withdraw_ctx(ALICE, SOL), 40).unwrap();
    assert_eq!(
        transfer,
        Transfer {
            from: treasury(SOL),
            to: wallet_tokens(ALICE, SOL),
            authority: treasury(SOL),
            mint: addr(SOL),
            amount: 40,
            decimals: 6,
            signer: Some(TreasuryAuthority { asset_id: addr(SOL), bump: 254 }),
        }
    );
}

#[test]
fn treasury_signer_seeds_are_tag_asset_and_nonce() {
    let authority = TreasuryAuthority::new(addr(SOL), 254);
    let seeds = authority.signer_seeds();
    assert_eq!(seeds.len(), 3);
    assert_eq!(seeds[0], b"Treasury".to_vec());
    assert_eq!(seeds[1], vec![SOL; 32]);
    assert_eq!(seeds[2], vec![254u8]);
}

#[test]
fn address_bytes_round_trip() {
    let mut bytes = [0u8; 32];
    for (i, b) in bytes.iter_mut().enumerate() {
        *b = i as u8;
    }
    let address = Address::new(bytes);
    assert_eq!(address.bytes, bytes);
    assert_eq!(address.to_vec(), bytes.to_vec());
}

#[test]
fn addresses_are_equal_when_all_bytes_agree() {
    let mut bytes = [7u8; 32];
    assert_eq!(Address::new(bytes), addr(7));
    bytes[31] = 8;
    assert_ne!(Address::new(bytes), addr(7));
    bytes[31] = 7;
    bytes[0] = 8;
    assert_ne!(Address::new(bytes), addr(7));
}

#[test]
fn conservation_holds_after_every_operation() {
    let mut state =
        store_with(&[(SOL, 8_000, 9_000), (USDC, 5_000, 9_000)], &[ALICE, BOB, CAROL]);
    let check = |state: &Lending| {
        for asset in [SOL, USDC] {
            let bank = bank_of(state, asset);
            assert!(deposited_by_all(state, asset) <= bank.total_deposits as u128);
            assert!(borrowed_by_all(state, asset) <= bank.total_borrows as u128);
            assert!(bank.is_wf());
        }
    };
    check(&state);
    deposit(&mut state, &deposit_ctx(ALICE, SOL), 1_000).unwrap();
    check(&state);
    deposit(&mut state, &deposit_ctx(BOB, USDC), 700).unwrap();
    check(&state);
    deposit(&mut state, &deposit_ctx(CAROL, SOL), 300).unwrap();
    check(&state);
    process_borrow(&mut state, &borrow_ctx(ALICE, USDC), 400).unwrap();
    check(&state);
    process_withdraw(&mut state, &withdraw_ctx(CAROL, SOL), 120).unwrap();
    check(&state);
    process_repay(&mut state, &repay_ctx(ALICE, USDC), 150).unwrap();
    check(&state);
    assert!(process_withdraw(&mut state, &withdraw_ctx(BOB, SOL), 1).is_err());
    check(&state);
    assert_eq!(deposited_by_all(&state, SOL), 1_180);
    assert_eq!(bank_of(&state, SOL).total_deposits, 1_180);
    assert_eq!(borrowed_by_all(&state, USDC), 250);
    assert_eq!(bank_of(&state, USDC).total_borrows, 250);
}

#[test]
fn borrow_ceiling_through_the_store() {
    let mut state = store_with(&[(SOL, 8_000, 9_000), (USDC, 5_000, 9_000)], &[ALICE, BOB]);
    deposit(&mut state, &deposit_ctx(ALICE, SOL), 1_000).unwrap();
    deposit(&mut state, &deposit_ctx(BOB, USDC), 5_000).unwrap();
    let before = state.clone();
    assert_eq!(
        process_borrow(&mut state, &borrow_ctx(ALICE, USDC), 501),
        Err(ErrorCode::ExceedsMaxLTV)
    );
    assert_eq!(state, before);
    let transfer = process_borrow(&mut state, &borrow_ctx(ALICE, USDC), 500).unwrap();
    assert_eq!(transfer.amount, 500);
    assert_eq!(transfer.from, treasury(USDC));
    assert_eq!(transfer.to, wallet_tokens(ALICE, USDC));
    assert_eq!(transfer.signer, Some(TreasuryAuthority { asset_id: addr(USDC), bump: 254 }));
    assert_eq!(bank_of(&state, USDC).total_borrows, 500);
    assert_eq!(bank_of(&state, USDC).total_borrow_shares, 500);
    assert_eq!(bank_of(&state, USDC).total_deposits, 5_000);
    assert_eq!(position_of(&state, ALICE, USDC).borrowed_amount, 500);
    assert_eq!(
        process_borrow(&mut state, &borrow_ctx(ALICE, USDC), 1),
        Err(ErrorCode::ExceedsMaxLTV)
    );
    assert_eq!(process_borrow(&mut state, &borrow_ctx(ALICE, SOL), 300).map(|t| t.amount), Ok(300));
    assert_eq!(
        process_borrow(&mut state, &borrow_ctx(ALICE, SOL), 1),
        Err(ErrorCode::ExceedsMaxLTV)
    );
}

#[test]
fn repay_through_the_store() {
    let mut state = store_with(&[(SOL, 8_000, 9_000), (USDC, 5_000, 9_000)], &[ALICE]);
    deposit(&mut state, &deposit_ctx(ALICE, SOL), 1_000).unwrap();
    process_borrow(&mut state, &borrow_ctx(ALICE, USDC), 500).unwrap();
    let before = state.clone();
    assert_eq!(
        process_repay(&mut state, &repay_ctx(ALICE, USDC), 501),
        Err(ErrorCode::InsufficientFunds)
    );
    assert_eq!(state, before);
    let transfer = process_repay(&mut state, &repay_ctx(ALICE, USDC), 200).unwrap();
    assert_eq!(
        transfer,
        Transfer {
            from: wallet_tokens(ALICE, USDC),
            to: treasury(USDC),
            authority: addr(ALICE),
            mint: addr(USDC),
            amount: 200,
            decimals: 6,
            signer: None,
        }
    );
    assert_eq!(bank_of(&state, USDC).total_borrows, 300);
    assert_eq!(position_of(&state, ALICE, USDC).borrowed_amount, 300);
    assert_eq!(position_of(&state, ALICE, USDC).borrowed_shares, 300);
}

#[test]
fn liquidate_through_the_store() {
    let mut state = store_with(&[(SOL, 9_500, 9_000), (USDC, 9_500, 9_000)], &[ALICE, BOB]);
    deposit(&mut state, &deposit_ctx(ALICE, SOL), 1_000).unwrap();
    deposit(&mut state, &deposit_ctx(BOB, USDC), 5_000).unwrap();
    process_borrow(&mut state, &borrow_ctx(ALICE, USDC), 899).unwrap();
    let before = state.clone();
    assert_eq!(
        process_liquidate(&mut state, &liquidate_ctx(BOB, ALICE, SOL, USDC), 100),
        Err(ErrorCode::NotLiquidatable)
    );
    assert_eq!(state, before);
    process_borrow(&mut state, &borrow_ctx(ALICE, USDC), 1).unwrap();
    let before = state.clone();
    assert_eq!(
        process_liquidate(&mut state, &liquidate_ctx(BOB, ALICE, SOL, USDC), 901),
        Err(ErrorCode::InsufficientFunds)
    );
    assert_eq!(state, before);
    let done = process_liquidate(&mut state, &liquidate_ctx(BOB, ALICE, SOL, USDC), 450).unwrap();
    assert_eq!(done.repayment.amount, 450);
    assert_eq!(done.repayment.from, wallet_tokens(BOB, USDC));
    assert_eq!(done.repayment.to, treasury(USDC));
    assert_eq!(done.repayment.authority, addr(BOB));
    assert_eq!(done.repayment.signer, None);
    assert_eq!(done.seizure.amount, 525);
    assert_eq!(done.seizure.from, treasury(SOL));
    assert_eq!(done.seizure.to, wallet_tokens(BOB, SOL));
    assert_eq!(done.seizure.signer, Some(TreasuryAuthority { asset_id: addr(SOL), bump: 253 }));
    assert_eq!(bank_of(&state, USDC).total_borrows, 450);
    assert_eq!(bank_of(&state, SOL).total_deposits, 475);
    assert_eq!(position_of(&state, ALICE, USDC).borrowed_amount, 450);
    assert_eq!(position_of(&state, ALICE, SOL).deposited_amount, 475);
    assert!(deposited_by_all(&state, SOL) <= bank_of(&state, SOL).total_deposits as u128);
}

#[test]
fn liquidate_collateral_and_debt_in_one_bank() {
    let mut state = store_with(&[(SOL, 9_500, 9_000)], &[ALICE, BOB]);
    deposit(&mut state, &deposit_ctx(ALICE, SOL), 1_000).unwrap();
    process_borrow(&mut state, &borrow_ctx(ALICE, SOL), 900).unwrap();
    let done = process_liquidate(&mut state, &liquidate_ctx(BOB, ALICE, SOL, SOL), 450).unwrap();
    assert_eq!(done.seizure.amount, 525);
    let bank = bank_of(&state, SOL);
    assert_eq!(bank.total_borrows, 450);
    assert_eq!(bank.total_borrow_shares, 450);
    assert_eq!(bank.total_deposits, 475);
    assert_eq!(bank.total_deposit_shares, 475);
    let position = position_of(&state, ALICE, SOL);
    assert_eq!(position.borrowed_amount, 450);
    assert_eq!(position.deposited_amount, 475);
    assert_eq!(state.users[0].positions.len(), 1);
}

#[test]
fn settle_keeps_the_operation_only_with_its_transfer() {
    let mut state = store_with(&[(SOL, 8_000, 9_000)], &[ALICE]);
    let before = state.clone();
    deposit(&mut state, &deposit_ctx(ALICE, SOL), 42).unwrap();
    let after = state;
    let (kept, outcome) = settle(before.clone(), after.clone(), true);
    assert_eq!(outcome, Ok(()));
    assert_eq!(kept, after);
    let (kept, outcome) = settle(before.clone(), after, false);
    assert_eq!(outcome, Err(ErrorCode::TransferFailed));
    assert_eq!(kept, before);
}

#[test]
fn error_messages() {
    assert_eq!(
        ErrorCode::InsufficientFunds.message(),
        "User has not deposited enough tokens to withdraw"
    );
    assert_eq!(ErrorCode::ArithmeticOverflow.message(), "Arithmetic overflow");
    assert_eq!(ErrorCode::TransferFailed.message(), "Token transfer failed");
    assert_ne!(ErrorCode::ExceedsMaxLTV.message(), ErrorCode::NotLiquidatable.message());
    assert_ne!(ErrorCode::AlreadyInitialized.message(), ErrorCode::NotInitialized.message());
}

#[test]
fn ratios_are_in_basis_points() {
    assert_eq!(RATIO_SCALE, 10_000);
    assert_eq!(Initialize {}, Initialize {});
}

use lending::math::mul_div;
use lending::shares::{
    amount_for_withdraw_shares, deposit, deposit_into, shares_for_deposit, withdraw, withdraw_from,
};
use lending::{Address, Bank, ErrorCode, Position, User};

fn addr(n: u8) -> Address {
    Address::new([n; 32])
}

fn bank_with(asset: Address, total_deposits: u64, total_deposit_shares: u64) -> Bank {
    let mut bank = Bank::new(asset, 8_000, 9_000);
    bank.total_deposits = total_deposits;
    bank.total_deposit_shares = total_deposit_shares;
    bank
}

#[test]
fn mul_div_rounds_down() {
    assert_eq!(mul_div(7, 3, 2), Some(10));
    assert_eq!(mul_div(100, 2_000, 3_000), Some(66));
    assert_eq!(mul_div(0, 5, 9), Some(0));
}

#[test]
fn mul_div_uses_wide_product() {
    assert_eq!(mul_div(u64::MAX, 2, 2), Some(u64::MAX));
    assert_eq!(mul_div(u64::MAX, u64::MAX, u64::MAX), Some(u64::MAX));
}

#[test]
fn mul_div_reports_quotient_out_of_range() {
    assert_eq!(mul_div(u64::MAX, 2, 1), None);
    assert_eq!(mul_div(u64::MAX, u64::MAX, 1), None);
}

#[test]
fn first_deposit_gets_one_share_per_unit() {
    let bank = Bank::new(addr(1), 8_000, 9_000);
    assert_eq!(shares_for_deposit(&bank, 1_000), Ok(1_000));
    assert_eq!(shares_for_deposit(&bank, u64::MAX), Ok(u64::MAX));
}

#[test]
fn later_deposit_gets_shares_at_bank_ratio_rounded_down() {
    let bank = bank_with(addr(1), 3_000, 2_000);
    assert_eq!(shares_for_deposit(&bank, 100), Ok(66));
    assert_eq!(shares_for_deposit(&bank, 1), Ok(0));
    assert_eq!(shares_for_deposit(&bank, 3), Ok(2));
}

#[test]
fn shares_for_deposit_out_of_range_is_overflow() {
    let bank = bank_with(addr(1), 1, u64::MAX);
    assert_eq!(shares_for_deposit(&bank, 2), Err(ErrorCode::ArithmeticOverflow));
}

#[test]
fn amount_for_shares_at_bank_ratio_rounded_down() {
    let bank = bank_with(addr(1), 3_000, 2_000);
    assert_eq!(amount_for_withdraw_shares(&bank, 100), Ok(150));
    assert_eq!(amount_for_withdraw_shares(&bank, 1), Ok(1));
    assert_eq!(amount_for_withdraw_shares(&bank, 3), Ok(4));
}

#[test]
fn amount_for_shares_at_empty_bank_is_at_par() {
    let bank = Bank::new(addr(1), 8_000, 9_000);
    assert_eq!(amount_for_withdraw_shares(&bank, 7), Ok(7));
}

#[test]
fn amount_for_shares_out_of_range_is_overflow() {
    let bank = bank_with(addr(1), u64::MAX, 1);
    assert_eq!(amount_for_withdraw_shares(&bank, 2), Err(ErrorCode::ArithmeticOverflow));
}

#[test]
fn deposit_updates_bank_and_position() {
    let mut bank = bank_with(addr(1), 3_000, 2_000);
    let mut user = User::new(addr(9), addr(1));
    assert_eq!(deposit(&mut bank, &mut user, 100), Ok(66));
    assert_eq!(bank.total_deposits, 3_100);
    assert_eq!(bank.total_deposit_shares, 2_066);
    assert_eq!(user.positions.len(), 1);
    assert_eq!(user.positions[0].asset_id, addr(1));
    assert_eq!(user.positions[0].deposited_amount, 100);
    assert_eq!(user.positions[0].deposited_shares, 66);
    assert_eq!(user.positions[0].borrowed_amount, 0);
    assert_eq!(user.owner, addr(9));
    assert_eq!(user.collateral_asset_id, addr(1));
}

#[test]
fn second_deposit_adds_to_the_same_position() {
    let mut bank = Bank::new(addr(1), 8_000, 9_000);
    let mut user = User::new(addr(9), addr(1));
    assert_eq!(deposit(&mut bank, &mut user, 40), Ok(40));
    assert_eq!(deposit(&mut bank, &mut user, 60), Ok(60));
    assert_eq!(user.positions.len(), 1);
    assert_eq!(user.positions[0].deposited_amount, 100);
    assert_eq!(user.positions[0].deposited_shares, 100);
}

#[test]
fn deposits_in_two_assets_make_two_positions() {
    let mut sol = Bank::new(addr(1), 8_000, 9_000);
    let mut usdc = Bank::new(addr(2), 8_000, 9_000);
    let mut user = User::new(addr(9), addr(2));
    assert_eq!(deposit(&mut sol, &mut user, 5), Ok(5));
    assert_eq!(deposit(&mut usdc, &mut user, 7), Ok(7));
    assert_eq!(user.positions.len(), 2);
    assert_eq!(user.position(addr(1)).deposited_amount, 5);
    assert_eq!(user.position(addr(2)).deposited_amount, 7);
    assert_eq!(user.position(addr(3)), Position::new(addr(3)));
    assert!(user.is_wf());
}

#[test]
fn deposit_of_zero_is_refused_and_changes_nothing() {
    let mut bank = bank_with(addr(1), 3_000, 2_000);
    let mut user = User::new(addr(9), addr(1));
    let bank_before = bank;
    let user_before = user.clone();
    assert_eq!(deposit(&mut bank, &mut user, 0), Err(ErrorCode::InsufficientFunds));
    assert_eq!(bank, bank_before);
    assert_eq!(user, user_before);
}

#[test]
fn deposit_that_overflows_the_total_is_refused_and_changes_nothing() {
    let mut bank = bank_with(addr(1), u64::MAX - 5, u64::MAX - 5);
    let mut user = User::new(addr(9), addr(1));
    let bank_before = bank;
    assert_eq!(deposit(&mut bank, &mut user, 10), Err(ErrorCode::ArithmeticOverflow));
    assert_eq!(bank, bank_before);
    assert!(user.positions.is_empty());
    assert_eq!(deposit(&mut bank, &mut user, 5), Ok(5));
    assert_eq!(bank.total_deposits, u64::MAX);
}

#[test]
fn deposit_into_returns_new_values_and_leaves_inputs() {
    let bank = bank_with(addr(1), 3_000, 2_000);
    let position = Position::new(addr(1));
    let (new_bank, new_position, shares) = deposit_into(&bank, &position, 300).unwrap();
    assert_eq!(shares, 200);
    assert_eq!(new_bank.total_deposits, 3_300);
    assert_eq!(new_bank.total_deposit_shares, 2_200);
    assert_eq!(new_position.deposited_amount, 300);
    assert_eq!(new_position.deposited_shares, 200);
    assert_eq!(bank.total_deposits, 3_000);
    assert_eq!(position.deposited_amount, 0);
}

#[test]
fn withdraw_updates_bank_and_position() {
    let mut bank = bank_with(addr(1), 3_000, 2_000);
    let mut user = User::new(addr(9), addr(1));
    user.positions.push(Position {
        asset_id: addr(1),
        deposited_amount: 300,
        deposited_shares: 200,
        borrowed_amount: 0,
        borrowed_shares: 0,
    });
    assert_eq!(withdraw(&mut bank, &mut user, 100), Ok(66));
    assert_eq!(bank.total_deposits, 2_900);
    assert_eq!(bank.total_deposit_shares, 1_934);
    assert_eq!(user.positions[0].deposited_amount, 200);
    assert_eq!(user.positions[0].deposited_shares, 134);
}

#[test]
fn withdraw_of_everything_empties_the_bank() {
    let mut bank = Bank::new(addr(1), 8_000, 9_000);
    let mut user = User::new(addr(9), addr(1));
    assert_eq!(deposit(&mut bank, &mut user, 1_000), Ok(1_000));
    assert_eq!(withdraw(&mut bank, &mut user, 1_000), Ok(1_000));
    assert_eq!(bank.total_deposits, 0);
    assert_eq!(bank.total_deposit_shares, 0);
    assert!(bank.is_wf());
    assert_eq!(user.positions[0].deposited_amount, 0);
    assert_eq!(user.positions[0].deposited_shares, 0);
}

#[test]
fn withdraw_above_principal_is_refused_and_changes_nothing() {
    let mut bank = Bank::new(addr(1), 8_000, 9_000);
    let mut user = User::new(addr(9), addr(1));
    assert_eq!(deposit(&mut bank, &mut user, 1_000), Ok(1_000));
    let bank_before = bank;
    let user_before = user.clone();
    assert_eq!(withdraw(&mut bank, &mut user, 1_001), Err(ErrorCode::InsufficientFunds));
    assert_eq!(bank, bank_before);
    assert_eq!(user, user_before);
}

#[test]
fn withdraw_of_zero_is_refused() {
    let mut bank = Bank::new(addr(1), 8_000, 9_000);
    let mut user = User::new(addr(9), addr(1));
    assert_eq!(deposit(&mut bank, &mut user, 1_000), Ok(1_000));
    assert_eq!(withdraw(&mut bank, &mut user, 0), Err(ErrorCode::InsufficientFunds));
    assert_eq!(bank.total_deposits, 1_000);
}

#[test]
fn withdraw_without_position_is_refused() {
    let mut bank = bank_with(addr(1), 3_000, 2_000);
    let mut user = User::new(addr(9), addr(1));
    assert_eq!(withdraw(&mut bank, &mut user, 1), Err(ErrorCode::InsufficientFunds));
    assert!(user.positions.is_empty());
}

#[test]
fn withdraw_above_bank_total_is_overflow() {
    let bank = bank_with(addr(1), 50, 50);
    let position = Position {
        asset_id: addr(1),
        deposited_amount: 100,
        deposited_shares: 100,
        borrowed_amount: 0,
        borrowed_shares: 0,
    };
    assert_eq!(withdraw_from(&bank, &position, 60), Err(ErrorCode::ArithmeticOverflow));
    assert!(withdraw_from(&bank, &position, 50).is_ok());
}

#[test]
fn withdraw_that_needs_more_shares_than_held_is_overflow() {
    let mut bank = bank_with(addr(1), 10, 15);
    let mut user = User::new(addr(9), addr(1));
    assert_eq!(deposit(&mut bank, &mut user, 1), Ok(1));
    assert_eq!(deposit(&mut bank, &mut user, 1), Ok(1));
    assert_eq!(deposit(&mut bank, &mut user, 1), Ok(1));
    assert_eq!((bank.total_deposits, bank.total_deposit_shares), (13, 18));
    let bank_before = bank;
    let user_before = user.clone();
    assert_eq!(withdraw(&mut bank, &mut user, 3), Err(ErrorCode::ArithmeticOverflow));
    assert_eq!(bank, bank_before);
    assert_eq!(user, user_before);
}

#[test]
fn deposit_then_withdraw_restores_bank_and_position() {
    let mut bank = bank_with(addr(1), 3_000, 2_000);
    let mut user = User::new(addr(9), addr(1));
    let bank_before = bank;
    let issued = deposit(&mut bank, &mut user, 100).unwrap();
    let removed = withdraw(&mut bank, &mut user, 100).unwrap();
    assert_eq!(issued, 66);
    assert_eq!(removed, issued);
    assert_eq!(bank, bank_before);
    assert_eq!(user.position(addr(1)), Position::new(addr(1)));
}

#[test]
fn first_depositor_round_trip_is_exact() {
    let mut bank = Bank::new(addr(1), 8_000, 9_000);
    let mut user = User::new(addr(9), addr(1));
    assert_eq!(deposit(&mut bank, &mut user, 12_345), Ok(12_345));
    assert_eq!(withdraw(&mut bank, &mut user, 12_345), Ok(12_345));
    assert_eq!(bank, Bank::new(addr(1), 8_000, 9_000));
    assert_eq!(user.position(addr(1)).deposited_amount, 0);
    assert_eq!(user.position(addr(1)).deposited_shares, 0);
}

#[test]
fn deposit_does_not_lower_the_share_price() {
    let mut bank = bank_with(addr(1), 3_000, 2_000);
    let mut user = User::new(addr(9), addr(1));
    let before = bank;
    deposit(&mut bank, &mut user, 100).unwrap();
    let kept = (bank.total_deposits as u128) * (before.total_deposit_shares as u128)
        >= (before.total_deposits as u128) * (bank.total_deposit_shares as u128);
    assert!(kept);
}

#[test]
fn withdraw_loses_less_than_one_share_of_price() {
    let mut bank = bank_with(addr(1), 3_100, 2_066);
    let mut user = User::new(addr(9), addr(1));
    user.positions.push(Position {
        asset_id: addr(1),
        deposited_amount: 100,
        deposited_shares: 66,
        borrowed_amount: 0,
        borrowed_shares: 0,
    });
    let before = bank;
    assert_eq!(withdraw(&mut bank, &mut user, 50), Ok(33));
    assert_eq!((bank.total_deposits, bank.total_deposit_shares), (3_050, 2_033));
    let after_price = (bank.total_deposits as u128) * (before.total_deposit_shares as u128);
    let bound = (before.total_deposits as u128) * ((bank.total_deposit_shares - 1) as u128);
    assert!(after_price > bound);
}

#[test]
fn bank_created_at_par_stays_at_par() {
    let mut bank = Bank::new(addr(1), 8_000, 9_000);
    let mut first = User::new(addr(8), addr(1));
    let mut second = User::new(addr(9), addr(1));
    deposit(&mut bank, &mut first, 1_000).unwrap();
    deposit(&mut bank, &mut second, 333).unwrap();
    withdraw(&mut bank, &mut first, 77).unwrap();
    deposit(&mut bank, &mut second, 1).unwrap();
    withdraw(&mut bank, &mut second, 334).unwrap();
    assert_eq!(bank.total_deposits, 923);
    assert_eq!(bank.total_deposit_shares, 923);
}

#[test]
fn bank_is_well_formed_when_each_side_is_empty_exactly_without_shares() {
    assert!(Bank::new(addr(1), 0, 0).is_wf());
    assert!(bank_with(addr(1), 5, 3).is_wf());
    assert!(!bank_with(addr(1), 5, 0).is_wf());
    assert!(!bank_with(addr(1), 0, 3).is_wf());
    let mut bank = bank_with(addr(1), 5, 3);
    bank.total_borrows = 1;
    assert!(!bank.is_wf());
    bank.total_borrow_shares = 2;
    assert!(bank.is_wf());
}

#[test]
fn user_is_well_formed_without_two_positions_in_one_asset() {
    let mut user = User::new(addr(9), addr(1));
    assert!(user.is_wf());
    user.positions.push(Position::new(addr(1)));
    user.positions.push(Position::new(addr(2)));
    user.positions.push(Position::new(addr(3)));
    assert!(user.is_wf());
    assert_eq!(user.find(addr(1)), Some(0));
    assert_eq!(user.find(addr(3)), Some(2));
    assert_eq!(user.find(addr(4)), None);
    user.positions.push(Position::new(addr(2)));
    assert!(!user.is_wf());
}

#[test]
fn put_replaces_or_appends() {
    let mut user = User::new(addr(9), addr(1));
    let mut first = Position::new(addr(1));
    first.deposited_amount = 5;
    user.put(first);
    user.put(Position::new(addr(2)));
    assert_eq!(user.positions.len(), 2);
    first.deposited_amount = 8;
    user.put(first);
    assert_eq!(user.positions.len(), 2);
    assert_eq!(user.positions[0], first);
    assert_eq!(user.positions[1], Position::new(addr(2)));
}

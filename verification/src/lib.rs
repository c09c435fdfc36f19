//! Share-based ledger and collateral accounting for a pooled lending protocol.
//!
//! Each asset has a bank that pools deposits; a user's claim on a bank is
//! counted in shares. The crate holds the records, the arithmetic between
//! amounts and shares, the rules for deposit, withdrawal, loan, repayment and
//! liquidation, and the store that keeps banks and users together. Moving
//! tokens is left to the caller: an operation returns the transfer that
//! belongs to it.

pub mod address;
pub mod authority;
pub mod errors;
pub mod instructions;
pub mod laws;
pub mod math;
pub mod policy;
pub mod registry;
pub mod shares;
pub mod state;

pub use crate::address::Address;
pub use crate::authority::{Transfer, TreasuryAuthority};
pub use crate::errors::ErrorCode;
pub use crate::instructions::{
    deposit, initialize_account, initialize_bank, process_borrow, process_liquidate,
    process_repay, process_withdraw, settle, Borrow, Deposit, Initialize, InitializeAccount,
    InitializeBank, Liquidate, Liquidation, Mint, Repay, Withdraw,
};
pub use crate::registry::Lending;
pub use crate::state::{Bank, Position, User, RATIO_SCALE};

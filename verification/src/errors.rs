//! The errors with which an operation of the protocol is refused.

use vstd::prelude::*;

verus! {

/// Why an operation was refused. Every error ends the operation with the
/// state as it was before.
#[derive(Clone, Copy, Debug, PartialEq, Eq, Structural)]
pub enum ErrorCode {
    /// A withdrawal or repayment exceeds what the user is entitled to, or moves nothing.
    InsufficientFunds,
    /// A borrow would take the user's debt above the loan-to-value ceiling.
    ExceedsMaxLTV,
    /// A liquidation was attempted on a healthy position.
    NotLiquidatable,
    /// A bank or a user record exists already.
    AlreadyInitialized,
    /// A bank or a user record does not exist yet.
    NotInitialized,
    /// An addition, subtraction or multiplication left the 64-bit range.
    ArithmeticOverflow,
    /// The asset transfer that belongs to the operation failed.
    TransferFailed,
}

impl ErrorCode {
    /// The text of the message that goes with the error.
    pub open spec fn message_spec(self) -> Seq<char> {
        match self {
            ErrorCode::InsufficientFunds => "User has not deposited enough tokens to withdraw"@,
            ErrorCode::ExceedsMaxLTV => "Requested amount exceeds the maximum loan-to-value"@,
            ErrorCode::NotLiquidatable => "Position is above the liquidation threshold"@,
            ErrorCode::AlreadyInitialized => "Account is already initialized"@,
            ErrorCode::NotInitialized => "Account is not initialized"@,
            ErrorCode::ArithmeticOverflow => "Arithmetic overflow"@,
            ErrorCode::TransferFailed => "Token transfer failed"@,
        }
    }

    /// The message that goes with the error.
    pub fn message(self) -> (s: &'static str)
        ensures
            s@ == self.message_spec(),
    {
        match self {
            ErrorCode::InsufficientFunds => "User has not deposited enough tokens to withdraw",
            ErrorCode::ExceedsMaxLTV => "Requested amount exceeds the maximum loan-to-value",
            ErrorCode::NotLiquidatable => "Position is above the liquidation threshold",
            ErrorCode::AlreadyInitialized => "Account is already initialized",
            ErrorCode::NotInitialized => "Account is not initialized",
            ErrorCode::ArithmeticOverflow => "Arithmetic overflow",
            ErrorCode::TransferFailed => "Token transfer failed",
        }
    }
}

} // verus!

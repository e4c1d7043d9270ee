use vstd::prelude::*;

verus! {

/// Why a trade or a withdrawal was refused. Each is detected before any state
/// changes.
#[derive(Clone, Copy, Debug, PartialEq, Eq, Structural)]
pub enum ErrorCode {
    /// A buy would deliver fewer tokens than the buyer accepts.
    LessThanMinTokenAmount,
    /// A sale would pay out less value than the seller accepts.
    LessThanMinSolAmount,
    /// Trading was attempted on a curve with no tokens left for sale.
    BondingCurveCompleted,
    /// Withdrawal was attempted while tokens are still for sale.
    BondingCurveNotCompleted,
    /// A trade of zero was requested.
    ZeroAmount,
    /// The proceeds of the curve were already withdrawn.
    AlreadyWithdrawn,
}

impl ErrorCode {
    /// A short human-readable description of the error.
    pub fn message(&self) -> (r: &'static str) {
        match self {
            ErrorCode::LessThanMinTokenAmount => "Calculated token amount is less than min token amount",
            ErrorCode::LessThanMinSolAmount => "Calculated sol amount is less than min sol amount",
            ErrorCode::BondingCurveCompleted => "Trade not allowed after threshold reached",
            ErrorCode::BondingCurveNotCompleted => "Withdraw not allowed before threshold reached",
            ErrorCode::ZeroAmount => "Trade not allow for zero amount",
            ErrorCode::AlreadyWithdrawn => "Already withdrawn",
        }
    }
}

} // verus!

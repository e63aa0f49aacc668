use vstd::prelude::*;

verus! {

/// Why an operation of the exchange was refused.
///
/// Every failure is reported to the caller as one of these values; a refused
/// operation leaves the state it was asked to change as it was.
#[derive(Clone, Copy, Debug, PartialEq, Eq, Structural)]
pub enum ErrorCode {
    /// An amount is zero, a fee rate is out of range, the operation is not
    /// yet due, or more replies are handed in than the operation has orders.
    InvalidInput,
    /// A pool was asked for with a fee rate above the whole amount.
    InvalidFeeRate,
    /// The caller is not the authority the operation is reserved for.
    Unauthorized,
    /// A balance would leave the range of 64 bits.
    ArithmeticOverflow,
    /// More would leave a reserve than it holds.
    ReserveUnderflow,
    /// The swap would pay out less than the caller's minimum.
    SlippageExceeded,
    /// The caller holds fewer shares than the withdrawal asks for.
    InsufficientShares,
    /// The pool holds no liquidity.
    EmptyPool,
    /// A pool for the same pair of assets exists already.
    DuplicatePool,
    /// The vault named is neither of the pool's two vaults.
    UnknownVault,
    /// The sale has been finalized or closed.
    LaunchClosed,
    /// The sale's window has ended.
    LaunchExpired,
    /// The contribution would take the sale past its target.
    TargetExceeded,
    /// The ledger refused a transfer, a mint or a burn.
    TransferFailed,
}

impl ErrorCode {
    /// The sentence that tells a caller what went wrong.
    pub open spec fn message_text(self) -> Seq<char> {
        match self {
            ErrorCode::InvalidInput => "Invalid input"@,
            ErrorCode::InvalidFeeRate => "Fee rate out of range"@,
            ErrorCode::Unauthorized => "Caller is not the authority"@,
            ErrorCode::ArithmeticOverflow => "Arithmetic overflow"@,
            ErrorCode::ReserveUnderflow => "Reserve underflow"@,
            ErrorCode::SlippageExceeded => "Slippage tolerance exceeded"@,
            ErrorCode::InsufficientShares => "Insufficient shares"@,
            ErrorCode::EmptyPool => "Pool is empty"@,
            ErrorCode::DuplicatePool => "Pool already exists"@,
            ErrorCode::UnknownVault => "Unknown vault"@,
            ErrorCode::LaunchClosed => "Launch is finalized or closed"@,
            ErrorCode::LaunchExpired => "Launch window has ended"@,
            ErrorCode::TargetExceeded => "Launch target exceeded"@,
            ErrorCode::TransferFailed => "Transfer failed"@,
        }
    }

    /// Tells a caller what went wrong.
    pub fn message(&self) -> (text: &'static str)
        ensures
            text@ == self.message_text(),
    {
        match self {
            ErrorCode::InvalidInput => "Invalid input",
            ErrorCode::InvalidFeeRate => "Fee rate out of range",
            ErrorCode::Unauthorized => "Caller is not the authority",
            ErrorCode::ArithmeticOverflow => "Arithmetic overflow",
            ErrorCode::ReserveUnderflow => "Reserve underflow",
            ErrorCode::SlippageExceeded => "Slippage tolerance exceeded",
            ErrorCode::InsufficientShares => "Insufficient shares",
            ErrorCode::EmptyPool => "Pool is empty",
            ErrorCode::DuplicatePool => "Pool already exists",
            ErrorCode::UnknownVault => "Unknown vault",
            ErrorCode::LaunchClosed => "Launch is finalized or closed",
            ErrorCode::LaunchExpired => "Launch window has ended",
            ErrorCode::TargetExceeded => "Launch target exceeded",
            ErrorCode::TransferFailed => "Transfer failed",
        }
    }
}

} // verus!

use vstd::prelude::*;

verus! {

/// Why an operation was refused. A refused operation leaves the ledger as it was.
#[derive(Clone, Copy, Debug, PartialEq, Eq, Structural)]
pub enum Error {
    DifferentDepositedToken,
    WrongRepayToken,
    InsufficientCollateral,
    SpotRateAlreadyDefined,
    LiquidatedUser,
    TimeNotReached,
    CollateralOnlyCanBeDeposited,
    WrongStageToSwap,
    InvalidToken,
    ContractStillOpen,
    AlreadyRepaid,
    Unauthorized,
    ContractAlreadyInitialized,
    AllPositionsAreUsed,
    DepositAmountDoesntMatchPosition,
}

impl Error {
    /// Number of the error, from 1, in the order of declaration.
    pub open spec fn spec_code(self) -> u32 {
        match self {
            Error::DifferentDepositedToken => 1,
            Error::WrongRepayToken => 2,
            Error::InsufficientCollateral => 3,
            Error::SpotRateAlreadyDefined => 4,
            Error::LiquidatedUser => 5,
            Error::TimeNotReached => 6,
            Error::CollateralOnlyCanBeDeposited => 7,
            Error::WrongStageToSwap => 8,
            Error::InvalidToken => 9,
            Error::ContractStillOpen => 10,
            Error::AlreadyRepaid => 11,
            Error::Unauthorized => 12,
            Error::ContractAlreadyInitialized => 13,
            Error::AllPositionsAreUsed => 14,
            Error::DepositAmountDoesntMatchPosition => 15,
        }
    }

    /// Number of the error, from 1, in the order of declaration.
    #[verifier::when_used_as_spec(spec_code)]
    pub fn code(self) -> (c: u32)
        ensures
            c == self.spec_code(),
            1 <= c <= 15,
    {
        match self {
            Error::DifferentDepositedToken => 1,
            Error::WrongRepayToken => 2,
            Error::InsufficientCollateral => 3,
            Error::SpotRateAlreadyDefined => 4,
            Error::LiquidatedUser => 5,
            Error::TimeNotReached => 6,
            Error::CollateralOnlyCanBeDeposited => 7,
            Error::WrongStageToSwap => 8,
            Error::InvalidToken => 9,
            Error::ContractStillOpen => 10,
            Error::AlreadyRepaid => 11,
            Error::Unauthorized => 12,
            Error::ContractAlreadyInitialized => 13,
            Error::AllPositionsAreUsed => 14,
            Error::DepositAmountDoesntMatchPosition => 15,
        }
    }
}

} // verus!

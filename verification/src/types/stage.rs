use vstd::prelude::*;

verus! {

/// The four stages of the contract's life, in order of time.
#[derive(Clone, Copy, Debug, PartialEq, Eq, Structural)]
pub enum Stage {
    Deposit,
    Swap,
    Repay,
    Withdraw,
}

impl Stage {
    /// Position of the stage in the lifecycle, from 1.
    pub open spec fn spec_rank(self) -> u32 {
        match self {
            Stage::Deposit => 1,
            Stage::Swap => 2,
            Stage::Repay => 3,
            Stage::Withdraw => 4,
        }
    }

    /// Position of the stage in the lifecycle, from 1.
    #[verifier::when_used_as_spec(spec_rank)]
    pub fn rank(self) -> (r: u32)
        ensures
            r == self.spec_rank(),
    {
        match self {
            Stage::Deposit => 1,
            Stage::Swap => 2,
            Stage::Repay => 3,
            Stage::Withdraw => 4,
        }
    }
}

} // verus!

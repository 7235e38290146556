//! The error taxonomy of the ledger.
//!
//! Every fallible operation aborts as a whole: it returns one of these kinds
//! and leaves the ledger unchanged.
use vstd::prelude::*;

verus! {

/// Why an operation was aborted. No partial state change ever accompanies
/// an error.
#[derive(Clone, Copy, Debug, PartialEq, Eq, Structural)]
pub enum StakingError {
    /// An unknown farm, pool, token or stake position was referenced.
    InvalidReference,
    /// A transfer amount was zero (or otherwise not positive).
    InvalidAmount,
    /// A withdrawal asked for more than the currently unlocked balance.
    InsufficientUnlocked,
    /// A checked arithmetic step overflowed or divided by zero. This marks an
    /// inconsistent ledger and is always fatal to the operation.
    Arithmetic,
    /// A proposed farm window overlaps an existing farm for the same asset.
    ScheduleConflict,
    /// The caller lacks the required role.
    Unauthorized,
}

impl StakingError {
    /// A human-readable reason, reported to the caller alongside the kind.
    pub fn reason(&self) -> (r: &'static str)
        ensures
            r@ =~= self.reason_spec(),
    {
        match self {
            StakingError::InvalidReference => "Invalid reference",
            StakingError::InvalidAmount => "Amount must be greater than 0",
            StakingError::InsufficientUnlocked => {
                "Amount must be smaller than available amount"
            },
            StakingError::Arithmetic => "Arithmetic overflow or division by zero",
            StakingError::ScheduleConflict => {
                "Farm Time Overlaps. Plz input valid farm time"
            },
            StakingError::Unauthorized => "Unauthorized caller",
        }
    }

    /// What `reason` returns, as a sequence of characters.
    pub open spec fn reason_spec(&self) -> Seq<char> {
        match self {
            StakingError::InvalidReference => "Invalid reference"@,
            StakingError::InvalidAmount => "Amount must be greater than 0"@,
            StakingError::InsufficientUnlocked => {
                "Amount must be smaller than available amount"@
            },
            StakingError::Arithmetic => "Arithmetic overflow or division by zero"@,
            StakingError::ScheduleConflict => {
                "Farm Time Overlaps. Plz input valid farm time"@
            },
            StakingError::Unauthorized => "Unauthorized caller"@,
        }
    }
}

} // verus!

//! Why the pool refuses an action.

use vstd::prelude::*;

use crate::staking_key::KeyError;

verus! {

/// Why the pool refuses an action. A refused action leaves the pool as it was.
#[derive(Debug)]
pub enum PoolError {
    /// A new pool was given a deposit fee above the greatest.
    DepositFeeExceedsMax,
    /// A new pool was given a claim fee above the greatest.
    ClaimFeeExceedsMax,
    /// The staking key is not acceptable.
    Key(KeyError),
    /// The pool takes no deposits at present.
    Paused,
    /// The deposit is below the least stake.
    DepositTooSmall,
    /// The caller has no record.
    NoStake,
    /// The caller's stake is still locked.
    StillLocked,
    /// The amount is zero, or more than the caller has staked.
    InvalidUnstakeAmount,
    /// The caller has nothing staked.
    NothingToUnstake,
    /// The caller has no record to withdraw from.
    NoWithdrawal,
    /// The caller has no unstaked balance.
    NoUnstakedBalance,
    /// The caller's unstaked balance is still unbonding.
    StillUnbonding,
    /// The caller has no rewards to claim.
    NoRewards,
    /// The caller has no rewards to compound.
    NoRewardsToCompound,
    /// The caller is not the owner.
    NotOwner,
    /// The owner asked for a deposit fee above the greatest.
    UpdatedDepositFeeExceedsMax,
    /// The owner asked for a claim fee above the greatest.
    UpdatedClaimFeeExceedsMax,
    /// A balance, a number of shares, an epoch or a time would not fit.
    Overflow,
}

impl PoolError {
    /// The text that describes this error.
    pub open spec fn text(&self) -> Seq<char> {
        match self {
            PoolError::DepositFeeExceedsMax => "deposit_fee_bps exceeds 0.1% max"@,
            PoolError::ClaimFeeExceedsMax => "claim_fee_bps exceeds 10% max"@,
            PoolError::Key(error) => error.text(),
            PoolError::Paused => "Pool is paused"@,
            PoolError::DepositTooSmall => "Deposit must be >= 1 FLC"@,
            PoolError::NoStake => "No stake found"@,
            PoolError::StillLocked => "Stake is still locked"@,
            PoolError::InvalidUnstakeAmount => "Invalid unstake amount"@,
            PoolError::NothingToUnstake => "Nothing to unstake"@,
            PoolError::NoWithdrawal => "No withdrawal found"@,
            PoolError::NoUnstakedBalance => "No unstaked balance"@,
            PoolError::StillUnbonding => {
                "The unstaked balance is not yet available due to unbonding period"@
            },
            PoolError::NoRewards => "No rewards yet"@,
            PoolError::NoRewardsToCompound => "No rewards to compound"@,
            PoolError::NotOwner => "Owner only"@,
            PoolError::UpdatedDepositFeeExceedsMax => "deposit > 0.1% max"@,
            PoolError::UpdatedClaimFeeExceedsMax => "claim > 10% max"@,
            PoolError::Overflow => "Arithmetic overflow"@,
        }
    }

    /// Describes this error.
    pub fn message(&self) -> (message: String)
        ensures
            message@ == self.text(),
    {
        match self {
            PoolError::DepositFeeExceedsMax => "deposit_fee_bps exceeds 0.1% max".to_owned(),
            PoolError::ClaimFeeExceedsMax => "claim_fee_bps exceeds 10% max".to_owned(),
            PoolError::Key(error) => error.message(),
            PoolError::Paused => "Pool is paused".to_owned(),
            PoolError::DepositTooSmall => "Deposit must be >= 1 FLC".to_owned(),
            PoolError::NoStake => "No stake found".to_owned(),
            PoolError::StillLocked => "Stake is still locked".to_owned(),
            PoolError::InvalidUnstakeAmount => "Invalid unstake amount".to_owned(),
            PoolError::NothingToUnstake => "Nothing to unstake".to_owned(),
            PoolError::NoWithdrawal => "No withdrawal found".to_owned(),
            PoolError::NoUnstakedBalance => "No unstaked balance".to_owned(),
            PoolError::StillUnbonding => {
                "The unstaked balance is not yet available due to unbonding period".to_owned()
            },
            PoolError::NoRewards => "No rewards yet".to_owned(),
            PoolError::NoRewardsToCompound => "No rewards to compound".to_owned(),
            PoolError::NotOwner => "Owner only".to_owned(),
            PoolError::UpdatedDepositFeeExceedsMax => "deposit > 0.1% max".to_owned(),
            PoolError::UpdatedClaimFeeExceedsMax => "claim > 10% max".to_owned(),
            PoolError::Overflow => "Arithmetic overflow".to_owned(),
        }
    }
}

/// A refused key is described as the key's error is.
pub proof fn law_key_error_text(error: KeyError)
    ensures
        PoolError::Key(error).text() == error.text(),
{
}

} // verus!

use vstd::prelude::*;

verus! {

/// The closed set of failures an operation can report.
///
/// Every failure is synchronous and leaves the contract state untouched; the
/// variants carry the numeric context a caller needs to render the failure
/// (for example the largest amount that could still be withdrawn).
#[derive(Clone, Debug, PartialEq, Eq)]
pub enum ContractError {
    /// The poll id is zero or beyond the current poll counter.
    PollNotExist,
    /// The requested end height is not in the future.
    PollCannotEndInPast,
    /// A quorum percentage above 100 was requested.
    PollQuorumPercentageMismatch { quorum_percentage: u8 },
    DescriptionTooShort { min_desc_length: u64 },
    DescriptionTooLong { max_desc_length: u64 },
    /// The account holds no custody record, or the pool is observed empty
    /// while votes exist.
    PollNoStake,
    /// Only the creator of a poll may end it.
    PollNotCreator { creator: String, sender: String },
    PollNotInProgress,
    PoolVotingPeriodNotStarted { start_height: u64 },
    PollVotingPeriodNotExpired { expire_height: u64 },
    /// The sender has already cast a vote on this poll.
    PollSenderVoted,
    /// The requested vote weight exceeds the sender's staked balance.
    PollInsufficientStake,
    /// The requested withdrawal would dip below the largest outstanding lock.
    ExcessiveWithdraw { max_amount: u128 },
    /// The attached funds do not contain the required coin.
    InsufficientFundsSent,
}

} // verus!

use vstd::prelude::*;
use crate::state::{PollStatus, State, VoteChoice};

verus! {

/// One denomination of attached funds.
#[derive(Clone, Debug)]
pub struct Coin {
    pub denom: String,
    pub amount: u128,
}

/// Who sent the request and what funds arrived with it.
#[derive(Clone, Debug)]
pub struct MessageInfo {
    pub sender: String,
    pub funds: Vec<Coin>,
}

/// The facts the host observes for an invocation: the current block height,
/// and the balance the custody pool holds in the configured denomination.
/// The pool balance is read outside this core (a bank query against the
/// contract's own account) and is authoritative at poll end; the bookkeeping
/// counter in [`State::staked_tokens`] is not consulted there.
#[derive(Clone, Copy, Debug)]
pub struct Env {
    pub block_height: u64,
    pub pool_balance: u128,
}

/// The five mutating requests.
#[derive(Clone, Debug)]
pub enum ExecuteMsg {
    StakeVotingTokens,
    WithdrawVotingTokens { amount: Option<u128> },
    CastVote { poll_id: u64, vote: VoteChoice, weight: u128 },
    EndPoll { poll_id: u64 },
    CreatePoll {
        quorum_percentage: Option<u8>,
        description: String,
        start_height: Option<u64>,
        end_height: Option<u64>,
    },
}

/// The read-only requests.
#[derive(Clone, Debug)]
pub enum QueryMsg {
    Config,
    TokenStake { address: String },
    Poll { poll_id: u64 },
}

/// Why a poll was rejected.
#[derive(Clone, Copy, PartialEq, Eq, Structural, Debug)]
pub enum RejectionReason {
    QuorumNotReached,
    ThresholdNotReached,
}

impl RejectionReason {
    /// The reason as the attribute text the host emits.
    pub fn text(&self) -> (r: &'static str)
        ensures
            self is QuorumNotReached ==> r@ == "Quorum not reached"@,
            self is ThresholdNotReached ==> r@ == "Threshold not reached"@,
    {
        match self {
            RejectionReason::QuorumNotReached => "Quorum not reached",
            RejectionReason::ThresholdNotReached => "Threshold not reached",
        }
    }
}

/// Outcome of the quorum/threshold resolution.
#[derive(Clone, Copy, PartialEq, Eq, Structural, Debug)]
pub enum Verdict {
    Passed,
    Rejected(RejectionReason),
}

/// The effects a successful operation reports back to the host, in place of
/// the wire-level attribute list and bank messages the host assembles.
#[derive(Clone, Debug)]
pub enum ExecuteResponse {
    /// Nothing to report beyond success.
    Empty,
    /// A fund transfer of `amount` in `denom` owed to `to_address`.
    Transfer { to_address: String, amount: u128, denom: String },
    /// A new poll; an absent quorum percentage or start height is
    /// reported as zero, matching the emitted attributes.
    PollCreated {
        creator: String,
        poll_id: u64,
        quorum_percentage: u8,
        end_height: u64,
        start_height: u64,
    },
    /// A vote was recorded.
    VoteCast { poll_id: u64, weight: u128, voter: String },
    /// A poll settled; `rejected_reason` is `None` exactly when it passed.
    PollEnded { poll_id: u64, passed: bool, rejected_reason: Option<RejectionReason> },
}

/// Reply to [`QueryMsg::Poll`].
#[derive(Clone, Debug)]
pub struct PollResponse {
    pub creator: String,
    pub status: PollStatus,
    pub quorum_percentage: Option<u8>,
    pub end_height: Option<u64>,
    pub start_height: Option<u64>,
    pub description: String,
}

/// Reply to [`QueryMsg::TokenStake`].
#[derive(Clone, Copy, PartialEq, Eq, Structural, Debug)]
pub struct TokenStakeResponse {
    pub token_balance: u128,
}

/// Replies to the read-only requests.
#[derive(Clone, Debug)]
pub enum QueryResponse {
    Config(State),
    TokenStake(TokenStakeResponse),
    Poll(PollResponse),
}

} // verus!

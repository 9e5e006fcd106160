use vstd::prelude::*;
use crate::error::ContractError;
use crate::msg::{RejectionReason, Verdict};

verus! {

/// The quorum percentage a tally reaches against the observed pool balance.
///
/// The tallied weight is divided by the pool balance first and only then
/// scaled to a percentage, so any participation short of the whole pool
/// truncates to zero percent; the scaled value is then cut down to a byte.
/// Both truncations are kept deliberately, for compatibility with the
/// behaviour existing deployments rely on, rather than corrected to the
/// multiply-first order that would grade participation smoothly.
pub open spec fn spec_quorum_pct(tallied: u128, staked: u128) -> u8
    recommends
        staked > 0,
{
    ((tallied as int / staked as int) * 100) as u8
}

/// The pass/fail decision over a finished tally:
/// - no participation at all never passes;
/// - an empty pool while votes exist is an operational fault, not a normal
///   rejection;
/// - a required quorum not reached by [`spec_quorum_pct`] rejects;
/// - otherwise a strict majority of the participating weight passes.
pub open spec fn spec_resolve(
    tallied: u128,
    yes: u128,
    quorum_percentage: Option<u8>,
    staked: u128,
) -> Result<Verdict, ContractError> {
    if tallied == 0 {
        Ok(Verdict::Rejected(RejectionReason::QuorumNotReached))
    } else if staked == 0 {
        Err(ContractError::PollNoStake)
    } else if (quorum_percentage matches Some(qp) && spec_quorum_pct(tallied, staked) < qp) {
        Ok(Verdict::Rejected(RejectionReason::QuorumNotReached))
    } else if yes > tallied / 2 {
        Ok(Verdict::Passed)
    } else {
        Ok(Verdict::Rejected(RejectionReason::ThresholdNotReached))
    }
}

/// Quorum/threshold resolution, computed exactly as [`spec_resolve`] states.
///
/// `staked_weight` is the externally observed balance of the custody pool,
/// not the bookkeeping counter.
pub fn resolve(
    tallied_weight: u128,
    yes: u128,
    quorum_percentage: Option<u8>,
    staked_weight: u128,
) -> (r: Result<Verdict, ContractError>)
    requires
        staked_weight > 0 ==> (tallied_weight as int / staked_weight as int) * 100 <= u128::MAX,
    ensures
        r == spec_resolve(tallied_weight, yes, quorum_percentage, staked_weight),
{
    if tallied_weight == 0 {
        return Ok(Verdict::Rejected(RejectionReason::QuorumNotReached));
    }
    if staked_weight == 0 {
        return Err(ContractError::PollNoStake);
    }
    let quorum: u8 = #[verifier::truncate] (((tallied_weight / staked_weight) * 100) as u8);
    if let Some(qp) = quorum_percentage {
        if quorum < qp {
            return Ok(Verdict::Rejected(RejectionReason::QuorumNotReached));
        }
    }
    if yes > tallied_weight / 2 {
        Ok(Verdict::Passed)
    } else {
        Ok(Verdict::Rejected(RejectionReason::ThresholdNotReached))
    }
}

} // verus!

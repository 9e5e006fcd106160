use vstd::prelude::*;
use crate::bank::lemma_balance_le_sum;
use crate::state::{remove_lock, status_transition_ok, ContractState, PollStatus};

verus! {

/// A settled poll never moves again: every operation's contract constrains
/// poll statuses by [`status_transition_ok`], and chaining any two such
/// steps after the one that left `InProgress` leaves the status exactly
/// where it settled.
pub proof fn lemma_status_settled(s1: PollStatus, s2: PollStatus, s3: PollStatus)
    requires
        status_transition_ok(s1, s2),
        status_transition_ok(s2, s3),
        s1 == PollStatus::InProgress,
        s2 != PollStatus::InProgress,
    ensures
        s3 == s2,
{
}

/// No account's balance exceeds the bookkeeping pool total in a
/// well-formed state: the total is the sum of all balances and balances
/// are never negative. Together with the withdrawal guard this is why the
/// checked subtractions on balance and pool total can never underflow.
pub proof fn lemma_balance_bounded(s: ContractState, k: int)
    requires
        s.wf(),
        0 <= k < s.bank@.len(),
    ensures
        s.bank@[k].1.token_balance <= s.config.staked_tokens,
{
    lemma_balance_le_sum(s.bank@, k);
}

/// Releasing a poll's lock is surgical: no lock for that poll survives,
/// and every lock for any other poll is kept.
pub proof fn lemma_remove_lock_complete(locks: Seq<(u64, u128)>, poll_id: u64)
    ensures
        forall|j: int|
            0 <= j < remove_lock(locks, poll_id).len() ==> (#[trigger] remove_lock(
                locks,
                poll_id,
            )[j]).0 != poll_id,
        forall|j: int|
            0 <= j < locks.len() && (#[trigger] locks[j]).0 != poll_id ==> remove_lock(
                locks,
                poll_id,
            ).contains(locks[j]),
    decreases locks.len(),
{
    reveal(Seq::filter);
    if locks.len() > 0 {
        lemma_remove_lock_complete(locks.drop_last(), poll_id);
        let sub = remove_lock(locks.drop_last(), poll_id);
        assert forall|j: int|
            0 <= j < locks.len() && (#[trigger] locks[j]).0 != poll_id implies remove_lock(
            locks,
            poll_id,
        ).contains(locks[j]) by {
            if j < locks.len() - 1 {
                assert(locks.drop_last()[j] == locks[j]);
                assert(sub.contains(locks[j]));
                let w = choose|w: int| 0 <= w < sub.len() && sub[w] == locks[j];
                assert(remove_lock(locks, poll_id)[w] == locks[j]);
            } else {
                assert(remove_lock(locks, poll_id).last() == locks[j]);
            }
        }
    }
}

} // verus!

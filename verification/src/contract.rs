use vstd::prelude::*;
use crate::bank::{
    find_account, lemma_balance_le_sum, lemma_lookup_at_index, lemma_lookup_none,
    lemma_lookup_push, lemma_lookup_update_other, lemma_sum_push, lemma_sum_update,
};
use crate::coin_helpers::{
    has_sufficient_coin, lemma_first_coin_at_index, spec_sent_amount,
    validate_sent_sufficient_coin,
};
use crate::error::ContractError;
use crate::msg::{
    Coin, Env, ExecuteMsg, ExecuteResponse, MessageInfo, PollResponse, QueryMsg, QueryResponse,
    TokenStakeResponse, Verdict,
};
use crate::resolver::spec_resolve;
use crate::state::{
    byte_len, lookup, max_locked, remove_lock, status_transition_ok, tally_no, tally_yes,
    ContractState, Poll, PollStatus, State, TokenManager, VoteChoice, Voter,
};

verus! {

/// Minimum amount a single stake must attach.
pub const MIN_STAKE_AMOUNT: u128 = 1;

/// Description length bounds, counted in bytes of the UTF-8 encoding.
pub const MIN_DESC_LENGTH: u64 = 3;

pub const MAX_DESC_LENGTH: u64 = 64;

/// Length of the default voting window, in blocks, when a poll names no end
/// height.
pub const DEFAULT_END_HEIGHT_BLOCKS: u64 = 100_800;

/// The fields of the configuration no operation may touch.
pub open spec fn config_fixed(pre: State, post: State) -> bool {
    &&& post.denom == pre.denom
    &&& post.owner == pre.owner
}

/// Poll statuses only ever settle: an existing poll's status moves only out
/// of `InProgress`, and a new poll starts there.
pub open spec fn status_evolution_ok(pre: ContractState, post: ContractState) -> bool {
    &&& post.polls@.len() >= pre.polls@.len()
    &&& (forall|i: int|
        0 <= i < pre.polls@.len() ==> status_transition_ok(
            pre.polls@[i].status,
            #[trigger] post.polls@[i].status,
        ))
    &&& (forall|i: int|
        pre.polls@.len() <= i < post.polls@.len() ==> (#[trigger] post.polls@[i]).status
            == PollStatus::InProgress)
}

/// Every custody record except possibly the one under `addr` is as it was.
pub open spec fn accounts_unchanged_except(
    pre: ContractState,
    post: ContractState,
    addr: Seq<char>,
) -> bool {
    forall|a: Seq<char>| a != addr ==> #[trigger] lookup(post.bank@, a) == lookup(pre.bank@, a)
}

/// Sets up the contract: the staking denomination, the instantiating sender
/// as owner, and an empty ledger with no polls and nothing staked.
pub fn instantiate(denom: String, sender: String) -> (s: ContractState)
    ensures
        s.wf(),
        s.config.denom == denom,
        s.config.owner == sender,
        s.config.poll_count == 0,
        s.config.staked_tokens == 0,
        s.bank@.len() == 0,
        s.polls@.len() == 0,
{
    ContractState {
        config: State { denom, owner: sender, poll_count: 0, staked_tokens: 0 },
        bank: Vec::new(),
        polls: Vec::new(),
    }
}

/// The fund-transfer effect a withdrawal reports to the host.
fn send_tokens(to_address: &String, amount: u128, denom: &String) -> (r: ExecuteResponse)
    ensures
        (r matches ExecuteResponse::Transfer { to_address: t, amount: a, denom: d } && t@
            == to_address@ && a == amount && d@ == denom@),
{
    ExecuteResponse::Transfer {
        to_address: to_address.clone(),
        amount,
        denom: denom.clone(),
    }
}

/// Index of the first coin sent in `denom`, if any.
fn find_coin(funds: &Vec<Coin>, denom: &String) -> (r: Option<usize>)
    ensures
        match r {
            Some(i) => 0 <= i < funds@.len() && funds@[i as int].denom@ == denom@ && (forall|
                j: int,
            |
                0 <= j < i ==> (#[trigger] funds@[j]).denom@ != denom@),
            None => forall|j: int| 0 <= j < funds@.len() ==> (#[trigger] funds@[j]).denom@ != denom@,
        },
{
    let mut i: usize = 0;
    while i < funds.len()
        invariant
            i <= funds@.len(),
            forall|j: int| 0 <= j < i ==> (#[trigger] funds@[j]).denom@ != denom@,
        decreases funds@.len() - i,
    {
        if funds[i].denom == *denom {
            return Some(i);
        }
        i = i + 1;
    }
    None
}

/// Everything a successful or failed stake guarantees: the attached funds
/// must carry the staking denomination at the minimum amount; the first coin
/// in that denomination is credited to the sender's spendable balance and to
/// the pool's bookkeeping total, and nothing else moves.
///
/// The minimum-coin check alone governs acceptance: coins attached in
/// other denominations are ignored, not rejected. That reading is kept
/// deliberately, for compatibility with the behaviour existing deployments
/// rely on.
pub open spec fn stake_post(
    pre: ContractState,
    post: ContractState,
    info: MessageInfo,
    r: Result<ExecuteResponse, ContractError>,
) -> bool {
    let ok = has_sufficient_coin(info.funds@, pre.config.denom@, MIN_STAKE_AMOUNT);
    let amt = spec_sent_amount(info.funds@, pre.config.denom@);
    &&& (ok <==> r is Ok)
    &&& (!ok ==> r == Err::<ExecuteResponse, ContractError>(ContractError::InsufficientFundsSent)
        && post == pre)
    &&& (ok ==> {
        &&& r == Ok::<ExecuteResponse, ContractError>(ExecuteResponse::Empty)
        &&& post.has_account(info.sender@)
        &&& post.spec_balance(info.sender@) == pre.spec_balance(info.sender@) + amt
        &&& post.spec_locks(info.sender@) == pre.spec_locks(info.sender@)
        &&& post.spec_participated(info.sender@) == pre.spec_participated(info.sender@)
        &&& accounts_unchanged_except(pre, post, info.sender@)
        &&& post.config.staked_tokens == pre.config.staked_tokens + amt
        &&& post.config.poll_count == pre.config.poll_count
        &&& config_fixed(pre.config, post.config)
        &&& post.polls@ == pre.polls@
    })
}

/// Deposits the attached funds into the sender's custody balance.
pub fn stake_voting_tokens(state: &mut ContractState, _env: &Env, info: &MessageInfo) -> (r: Result<
    ExecuteResponse,
    ContractError,
>)
    requires
        old(state).wf(),
        old(state).config.staked_tokens + spec_sent_amount(
            info.funds@,
            old(state).config.denom@,
        ) <= u128::MAX,
    ensures
        final(state).wf(),
        stake_post(*old(state), *final(state), *info, r),
        status_evolution_ok(*old(state), *final(state)),
{
    let required = Coin { denom: state.config.denom.clone(), amount: MIN_STAKE_AMOUNT };
    match validate_sent_sufficient_coin(&info.funds, Some(required)) {
        Err(e) => {
            return Err(e);
        },
        Ok(_) => {},
    }
    let fi: usize = match find_coin(&info.funds, &state.config.denom) {
        Some(i) => i,
        None => {
            // unreachable: validation just found a coin in this denomination
            proof {
                assert(false);
            }
            return Err(ContractError::InsufficientFundsSent);
        },
    };
    let amt: u128 = info.funds[fi].amount;
    proof {
        lemma_first_coin_at_index(info.funds@, fi as int);
    }
    let ghost pre_bank = state.bank@;
    match find_account(&state.bank, &info.sender) {
        Some(i) => {
            proof {
                lemma_lookup_at_index(pre_bank, i as int);
                lemma_balance_le_sum(pre_bank, i as int);
            }
            let nb: u128 = state.bank[i].1.token_balance + amt;
            state.bank[i].1.token_balance = nb;
            proof {
                let e = state.bank@[i as int];
                assert(state.bank@ =~= pre_bank.update(i as int, e));
                lemma_sum_update(pre_bank, i as int, e);
                lemma_lookup_at_index(state.bank@, i as int);
                assert forall|a: Seq<char>| a != info.sender@ implies lookup(state.bank@, a)
                    == lookup(pre_bank, a) by {
                    lemma_lookup_update_other(pre_bank, i as int, e, a);
                }
            }
        },
        None => {
            proof {
                lemma_lookup_none(pre_bank, info.sender@);
            }
            let mut tm = TokenManager::default();
            tm.token_balance = amt;
            state.bank.push((info.sender.clone(), tm));
            proof {
                let e = state.bank@.last();
                assert(state.bank@ =~= pre_bank.push(e));
                lemma_sum_push(pre_bank, e);
                assert forall|a: Seq<char>| lookup(state.bank@, a) != lookup(pre_bank, a) implies a
                    == info.sender@ && lookup(state.bank@, a) == Some(e.1) by {
                    lemma_lookup_push(pre_bank, e, a);
                }
                lemma_lookup_push(pre_bank, e, info.sender@);
            }
        },
    }
    let ns: u128 = state.config.staked_tokens + amt;
    state.config.staked_tokens = ns;
    proof {
        // only balances moved: every lock list, key and poll is as it was
        assert forall|k: int| 0 <= k < state.bank@.len() implies state.locks_wf(k) by {
            if k < old(state).bank@.len() {
                assert(old(state).locks_wf(k));
                assert(state.bank@[k].0@ == old(state).bank@[k].0@);
                assert(state.bank@[k].1.locked_tokens@ == old(state).bank@[k].1.locked_tokens@);
            }
        }
    }
    Ok(ExecuteResponse::Empty)
}

/// Everything a withdrawal guarantees. An account that never staked cannot
/// withdraw; otherwise the requested amount (the whole balance when no
/// amount is named) may not dip the balance below the largest single-poll
/// lock. On success the amount leaves the balance and the bookkeeping pool
/// total, and a fund transfer back to the sender is reported.
pub open spec fn withdraw_post(
    pre: ContractState,
    post: ContractState,
    info: MessageInfo,
    amount: Option<u128>,
    r: Result<ExecuteResponse, ContractError>,
) -> bool {
    let balance = pre.spec_balance(info.sender@);
    let locked = max_locked(pre.spec_locks(info.sender@));
    let wa = match amount {
        Some(a) => a as int,
        None => balance,
    };
    if !pre.has_account(info.sender@) {
        r == Err::<ExecuteResponse, ContractError>(ContractError::PollNoStake) && post == pre
    } else if locked + wa > balance {
        r == Err::<ExecuteResponse, ContractError>(
            ContractError::ExcessiveWithdraw { max_amount: (balance - locked) as u128 },
        ) && post == pre
    } else {
        &&& (r matches Ok(ExecuteResponse::Transfer { to_address, amount: am, denom })
            && to_address@ == info.sender@ && am == wa && denom@ == pre.config.denom@)
        &&& post.has_account(info.sender@)
        &&& post.spec_balance(info.sender@) == balance - wa
        &&& post.spec_locks(info.sender@) == pre.spec_locks(info.sender@)
        &&& post.spec_participated(info.sender@) == pre.spec_participated(info.sender@)
        &&& accounts_unchanged_except(pre, post, info.sender@)
        &&& post.config.staked_tokens == pre.config.staked_tokens - wa
        &&& post.config.poll_count == pre.config.poll_count
        &&& config_fixed(pre.config, post.config)
        &&& post.polls@ == pre.polls@
    }
}

/// Withdraws staked tokens back to the sender; with no amount named, the
/// whole balance. The balance may never dip below the largest outstanding
/// single-poll lock — the largest, not the sum, so the same capital may
/// back several concurrent polls.
pub fn withdraw_voting_tokens(
    state: &mut ContractState,
    _env: &Env,
    info: &MessageInfo,
    amount: Option<u128>,
) -> (r: Result<ExecuteResponse, ContractError>)
    requires
        old(state).wf(),
    ensures
        final(state).wf(),
        withdraw_post(*old(state), *final(state), *info, amount, r),
        status_evolution_ok(*old(state), *final(state)),
{
    let ghost pre_bank = state.bank@;
    let i: usize = match find_account(&state.bank, &info.sender) {
        Some(i) => i,
        None => {
            proof {
                lemma_lookup_none(pre_bank, info.sender@);
            }
            return Err(ContractError::PollNoStake);
        },
    };
    proof {
        lemma_lookup_at_index(pre_bank, i as int);
    }
    let largest_staked: u128 = crate::bank::locked_amount(&state.bank[i].1);
    let balance: u128 = state.bank[i].1.token_balance;
    let withdraw_amount: u128 = match amount {
        Some(a) => a,
        None => balance,
    };
    // the guard compares without overflow: the balance never sits below the
    // largest lock, so the subtraction is exact
    if withdraw_amount > balance - largest_staked {
        return Err(ContractError::ExcessiveWithdraw { max_amount: balance - largest_staked });
    }
    proof {
        lemma_balance_le_sum(pre_bank, i as int);
    }
    let nb: u128 = balance - withdraw_amount;
    state.bank[i].1.token_balance = nb;
    proof {
        let e = state.bank@[i as int];
        assert(state.bank@ =~= pre_bank.update(i as int, e));
        lemma_sum_update(pre_bank, i as int, e);
        lemma_lookup_at_index(state.bank@, i as int);
        assert forall|a: Seq<char>| a != info.sender@ implies lookup(state.bank@, a) == lookup(
            pre_bank,
            a,
        ) by {
            lemma_lookup_update_other(pre_bank, i as int, e, a);
        }
    }
    let ns: u128 = state.config.staked_tokens - withdraw_amount;
    state.config.staked_tokens = ns;
    proof {
        // only balances moved: every lock list, key and poll is as it was
        assert forall|k: int| 0 <= k < state.bank@.len() implies state.locks_wf(k) by {
            assert(old(state).locks_wf(k));
            assert(state.bank@[k].0@ == old(state).bank@[k].0@);
            assert(state.bank@[k].1.locked_tokens@ == old(state).bank@[k].1.locked_tokens@);
        }
    }
    Ok(send_tokens(&info.sender, withdraw_amount, &state.config.denom))
}

/// Rejects a description whose length, counted in bytes of its UTF-8
/// encoding, falls outside the configured bounds.
pub fn validate_description(description: &str) -> (r: Result<(), ContractError>)
    ensures
        byte_len(description@) < MIN_DESC_LENGTH ==> r == Err::<(), ContractError>(
            ContractError::DescriptionTooShort { min_desc_length: MIN_DESC_LENGTH },
        ),
        byte_len(description@) > MAX_DESC_LENGTH ==> r == Err::<(), ContractError>(
            ContractError::DescriptionTooLong { max_desc_length: MAX_DESC_LENGTH },
        ),
        r is Ok <==> MIN_DESC_LENGTH <= byte_len(description@) <= MAX_DESC_LENGTH,
{
    let bytes = description.as_bytes();
    let len: usize = bytes.len();
    proof {
        vstd::slice::axiom_spec_len(bytes);
        assert(len as nat == byte_len(description@));
    }
    if (len as u64) < MIN_DESC_LENGTH {
        Err(ContractError::DescriptionTooShort { min_desc_length: MIN_DESC_LENGTH })
    } else if (len as u64) > MAX_DESC_LENGTH {
        Err(ContractError::DescriptionTooLong { max_desc_length: MAX_DESC_LENGTH })
    } else {
        Ok(())
    }
}

/// Rejects a quorum percentage above one hundred; an absent one is fine.
pub fn validate_quorum_percentage(quorum_percentage: Option<u8>) -> (r: Result<
    (),
    ContractError,
>)
    ensures
        match quorum_percentage {
            Some(qp) => if qp > 100 {
                r == Err::<(), ContractError>(
                    ContractError::PollQuorumPercentageMismatch { quorum_percentage: qp },
                )
            } else {
                r is Ok
            },
            None => r is Ok,
        },
{
    match quorum_percentage {
        Some(qp) => {
            if qp > 100 {
                return Err(ContractError::PollQuorumPercentageMismatch { quorum_percentage: qp });
            }
            Ok(())
        },
        None => Ok(()),
    }
}

/// Rejects an end height that is not in the future; an absent one is fine.
fn validate_end_height(end_height: Option<u64>, current_height: u64) -> (r: Result<
    (),
    ContractError,
>)
    ensures
        r is Err <==> (end_height matches Some(eh) && current_height >= eh),
        r is Err ==> r == Err::<(), ContractError>(ContractError::PollCannotEndInPast),
{
    if let Some(eh) = end_height {
        if current_height >= eh {
            return Err(ContractError::PollCannotEndInPast);
        }
    }
    Ok(())
}

/// Everything poll creation guarantees: the quorum percentage, end height
/// and description are validated in that order, and on success a fresh
/// in-progress poll with no votes is appended under the next poll id, with
/// the default voting window when no end height was named.
pub open spec fn create_poll_post(
    pre: ContractState,
    post: ContractState,
    info: MessageInfo,
    quorum_percentage: Option<u8>,
    description: String,
    start_height: Option<u64>,
    end_height: Option<u64>,
    current_height: u64,
    r: Result<ExecuteResponse, ContractError>,
) -> bool {
    if (quorum_percentage matches Some(q) && q > 100) {
        &&& (r matches Err(ContractError::PollQuorumPercentageMismatch { quorum_percentage: qq })
            && Some(qq) == quorum_percentage)
        &&& post == pre
    } else if (end_height matches Some(eh) && current_height >= eh) {
        r == Err::<ExecuteResponse, ContractError>(ContractError::PollCannotEndInPast) && post
            == pre
    } else if byte_len(description@) < MIN_DESC_LENGTH {
        r == Err::<ExecuteResponse, ContractError>(
            ContractError::DescriptionTooShort { min_desc_length: MIN_DESC_LENGTH },
        ) && post == pre
    } else if byte_len(description@) > MAX_DESC_LENGTH {
        r == Err::<ExecuteResponse, ContractError>(
            ContractError::DescriptionTooLong { max_desc_length: MAX_DESC_LENGTH },
        ) && post == pre
    } else {
        let pid = (pre.config.poll_count + 1) as u64;
        let eh = match end_height {
            Some(e) => e,
            None => (current_height + DEFAULT_END_HEIGHT_BLOCKS) as u64,
        };
        &&& (r matches Ok(
            ExecuteResponse::PollCreated {
                creator,
                poll_id,
                quorum_percentage: rq,
                end_height: re,
                start_height: rs,
            },
        ) && creator@ == info.sender@ && poll_id == pid && rq == (match quorum_percentage {
            Some(q) => q,
            None => 0u8,
        }) && re == eh && rs == (match start_height {
            Some(s) => s,
            None => 0u64,
        }))
        &&& post.config.poll_count == pid
        &&& post.config.staked_tokens == pre.config.staked_tokens
        &&& config_fixed(pre.config, post.config)
        &&& post.bank@ == pre.bank@
        &&& post.polls@.len() == pre.polls@.len() + 1
        &&& post.polls@.drop_last() == pre.polls@
        &&& {
            let np = post.polls@.last();
            &&& np.creator == info.sender
            &&& np.status == PollStatus::InProgress
            &&& np.quorum_percentage == quorum_percentage
            &&& np.yes_votes == 0
            &&& np.no_votes == 0
            &&& np.voters@.len() == 0
            &&& np.voter_info@.len() == 0
            &&& np.end_height == eh
            &&& np.start_height == start_height
            &&& np.description == description
        }
    }
}

/// Creates a new poll under the next poll id.
pub fn create_poll(
    state: &mut ContractState,
    env: &Env,
    info: &MessageInfo,
    quorum_percentage: Option<u8>,
    description: String,
    start_height: Option<u64>,
    end_height: Option<u64>,
) -> (r: Result<ExecuteResponse, ContractError>)
    requires
        old(state).wf(),
        old(state).config.poll_count < u64::MAX,
        end_height is None ==> env.block_height + DEFAULT_END_HEIGHT_BLOCKS <= u64::MAX,
    ensures
        final(state).wf(),
        create_poll_post(
            *old(state),
            *final(state),
            *info,
            quorum_percentage,
            description,
            start_height,
            end_height,
            env.block_height,
            r,
        ),
        status_evolution_ok(*old(state), *final(state)),
{
    match validate_quorum_percentage(quorum_percentage) {
        Err(e) => {
            return Err(e);
        },
        Ok(_) => {},
    }
    match validate_end_height(end_height, env.block_height) {
        Err(e) => {
            return Err(e);
        },
        Ok(_) => {},
    }
    match validate_description(description.as_str()) {
        Err(e) => {
            return Err(e);
        },
        Ok(_) => {},
    }
    let poll_id: u64 = state.config.poll_count + 1;
    state.config.poll_count = poll_id;
    let actual_end_height: u64 = match end_height {
        Some(e) => e,
        None => env.block_height + DEFAULT_END_HEIGHT_BLOCKS,
    };
    let new_poll = Poll {
        creator: info.sender.clone(),
        status: PollStatus::InProgress,
        quorum_percentage,
        yes_votes: 0,
        no_votes: 0,
        voters: Vec::new(),
        voter_info: Vec::new(),
        end_height: actual_end_height,
        start_height,
        description,
    };
    let ghost pre_polls = state.polls@;
    let response = ExecuteResponse::PollCreated {
        creator: new_poll.creator.clone(),
        poll_id,
        quorum_percentage: match quorum_percentage {
            Some(q) => q,
            None => 0,
        },
        end_height: actual_end_height,
        start_height: match start_height {
            Some(s) => s,
            None => 0,
        },
    };
    state.polls.push(new_poll);
    proof {
        assert(state.polls@.drop_last() =~= pre_polls);
        // existing locks name polls below the old counter, all still there
        assert forall|k: int| 0 <= k < state.bank@.len() implies state.locks_wf(k) by {
            assert(old(state).locks_wf(k));
            let locks = state.bank@[k].1.locked_tokens@;
            assert forall|l: int|
                0 <= l < locks.len() implies 1 <= (#[trigger] locks[l]).0
                <= state.config.poll_count && state.polls@[locks[l].0 - 1].spec_has_voted(
                state.bank@[k].0@,
            ) by {
                assert(state.polls@[locks[l].0 - 1] == pre_polls[locks[l].0 - 1]);
            }
        }
    }
    Ok(response)
}

/// Whether `addr` already appears among a poll's voters.
fn has_voted(voter: &String, a_poll: &Poll) -> (r: bool)
    ensures
        r == a_poll.spec_has_voted(voter@),
{
    let mut i: usize = 0;
    while i < a_poll.voters.len()
        invariant
            i <= a_poll.voters@.len(),
            forall|j: int| 0 <= j < i ==> (#[trigger] a_poll.voters@[j])@ != voter@,
        decreases a_poll.voters@.len() - i,
    {
        if a_poll.voters[i] == *voter {
            proof {
                assert(a_poll.voters@[i as int]@ == voter@);
            }
            return true;
        }
        i = i + 1;
    }
    false
}

/// Everything casting a vote guarantees. The poll id must be within the
/// known range of the poll counter, the poll must still be in progress, an
/// account votes at most once per poll, and the vote's weight must not
/// exceed the spendable balance. On success the ballot is appended to the
/// poll and the weight is locked behind it in the voter's custody record;
/// the balance itself does not move.
pub open spec fn cast_vote_post(
    pre: ContractState,
    post: ContractState,
    info: MessageInfo,
    poll_id: u64,
    vote: VoteChoice,
    weight: u128,
    r: Result<ExecuteResponse, ContractError>,
) -> bool {
    if poll_id == 0 || poll_id > pre.config.poll_count {
        r == Err::<ExecuteResponse, ContractError>(ContractError::PollNotExist) && post == pre
    } else {
        let p = pre.spec_poll(poll_id);
        if p.status != PollStatus::InProgress {
            r == Err::<ExecuteResponse, ContractError>(ContractError::PollNotInProgress) && post
                == pre
        } else if p.spec_has_voted(info.sender@) {
            r == Err::<ExecuteResponse, ContractError>(ContractError::PollSenderVoted) && post
                == pre
        } else if weight > pre.spec_balance(info.sender@) {
            r == Err::<ExecuteResponse, ContractError>(ContractError::PollInsufficientStake)
                && post == pre
        } else {
            &&& (r matches Ok(ExecuteResponse::VoteCast { poll_id: rp, weight: rw, voter }) && rp
                == poll_id && rw == weight && voter@ == info.sender@)
            &&& post.has_account(info.sender@)
            &&& post.spec_balance(info.sender@) == pre.spec_balance(info.sender@)
            &&& post.spec_locks(info.sender@) == pre.spec_locks(info.sender@).push(
                (poll_id, weight),
            )
            &&& post.spec_participated(info.sender@) == pre.spec_participated(
                info.sender@,
            ).push(poll_id)
            &&& accounts_unchanged_except(pre, post, info.sender@)
            &&& post.config == pre.config
            &&& post.polls@.len() == pre.polls@.len()
            &&& (forall|i: int|
                0 <= i < pre.polls@.len() && i != poll_id - 1 ==> post.polls@[i] == pre.polls@[i])
            &&& {
                let pp = post.spec_poll(poll_id);
                &&& pp.voters@.len() == p.voters@.len() + 1
                &&& pp.voters@.drop_last() == p.voters@
                &&& pp.voters@.last()@ == info.sender@
                &&& pp.voter_info@ == p.voter_info@.push(Voter { vote, weight })
                &&& pp.status == p.status
                &&& pp.creator == p.creator
                &&& pp.quorum_percentage == p.quorum_percentage
                &&& pp.yes_votes == p.yes_votes
                &&& pp.no_votes == p.no_votes
                &&& pp.end_height == p.end_height
                &&& pp.start_height == p.start_height
                &&& pp.description == p.description
            }
        }
    }
}

/// Casts a vote on an existing in-progress poll, locking the weight
/// behind it.
pub fn cast_vote(
    state: &mut ContractState,
    _env: &Env,
    info: &MessageInfo,
    poll_id: u64,
    vote: VoteChoice,
    weight: u128,
) -> (r: Result<ExecuteResponse, ContractError>)
    requires
        old(state).wf(),
    ensures
        final(state).wf(),
        cast_vote_post(*old(state), *final(state), *info, poll_id, vote, weight, r),
        status_evolution_ok(*old(state), *final(state)),
{
    if poll_id == 0 || poll_id > state.config.poll_count {
        // no poll record is stored outside 1..=poll_count
        return Err(ContractError::PollNotExist);
    }
    let pi: usize = (poll_id - 1) as usize;
    proof {
        assert(poll_id - 1 < state.polls@.len());
        vstd::std_specs::vec::axiom_spec_len(&state.polls);
        assert(state.polls@.len() <= usize::MAX);
        assert(pi as int == poll_id - 1);
        assert(state.polls@[pi as int] == old(state).spec_poll(poll_id));
    }
    if state.polls[pi].status != PollStatus::InProgress {
        return Err(ContractError::PollNotInProgress);
    }
    if has_voted(&info.sender, &state.polls[pi]) {
        return Err(ContractError::PollSenderVoted);
    }
    let ghost pre_bank = state.bank@;
    match find_account(&state.bank, &info.sender) {
        Some(i) => {
            proof {
                lemma_lookup_at_index(pre_bank, i as int);
            }
            if state.bank[i].1.token_balance < weight {
                return Err(ContractError::PollInsufficientStake);
            }
            state.bank[i].1.participated_polls.push(poll_id);
            state.bank[i].1.locked_tokens.push((poll_id, weight));
            proof {
                let e = state.bank@[i as int];
                assert(state.bank@ =~= pre_bank.update(i as int, e));
                lemma_sum_update(pre_bank, i as int, e);
                lemma_lookup_at_index(state.bank@, i as int);
                crate::bank::lemma_max_locked_push(
                    pre_bank[i as int].1.locked_tokens@,
                    (poll_id, weight),
                );
                assert forall|a: Seq<char>| a != info.sender@ implies lookup(state.bank@, a)
                    == lookup(pre_bank, a) by {
                    lemma_lookup_update_other(pre_bank, i as int, e, a);
                }
                // the sender holds no lock for this poll yet: such a lock
                // would mean a ballot already cast on it
                assert(old(state).locks_wf(i as int));
                assert(old(state).spec_locks(info.sender@) == old(
                    state,
                ).bank@[i as int].1.locked_tokens@);
                assert forall|l: int|
                    0 <= l < old(state).spec_locks(info.sender@).len() implies (#[trigger] old(
                    state,
                ).spec_locks(info.sender@)[l]).0 != poll_id by {
                    assert(old(state).bank@[i as int].1.locked_tokens@[l] == old(
                        state,
                    ).spec_locks(info.sender@)[l]);
                }
            }
        },
        None => {
            proof {
                lemma_lookup_none(pre_bank, info.sender@);
            }
            if weight > 0 {
                return Err(ContractError::PollInsufficientStake);
            }
            let mut tm = TokenManager::default();
            tm.participated_polls.push(poll_id);
            tm.locked_tokens.push((poll_id, weight));
            state.bank.push((info.sender.clone(), tm));
            proof {
                let e = state.bank@.last();
                assert(state.bank@ =~= pre_bank.push(e));
                lemma_sum_push(pre_bank, e);
                crate::bank::lemma_max_locked_push(
                    Seq::<(u64, u128)>::empty(),
                    (poll_id, weight),
                );
                assert forall|a: Seq<char>| lookup(state.bank@, a) != lookup(pre_bank, a) implies a
                    == info.sender@ && lookup(state.bank@, a) == Some(e.1) by {
                    lemma_lookup_push(pre_bank, e, a);
                }
                lemma_lookup_push(pre_bank, e, info.sender@);
            }
        },
    }
    let ghost pre_polls = state.polls@;
    state.polls[pi].voters.push(info.sender.clone());
    state.polls[pi].voter_info.push(Voter { vote, weight });
    proof {
        let pp = state.polls@[pi as int];
        assert(state.polls@ =~= pre_polls.update(pi as int, pp));
        assert(pp.voters@.drop_last() =~= pre_polls[pi as int].voters@);
        // the poll gained one ballot; every prior ballot stands, and the
        // sender's new ballot backs the lock that was appended
        assert forall|a: Seq<char>|
            old(state).spec_poll(poll_id).spec_has_voted(a) implies state.polls@[poll_id
            - 1].spec_has_voted(a) by {
            let w = choose|w: int|
                0 <= w < old(state).spec_poll(poll_id).voters@.len() && old(state).spec_poll(
                    poll_id,
                ).voters@[w]@ == a;
            assert(state.polls@[poll_id - 1].voters@[w]@ == a);
        }
        assert(state.polls@[poll_id - 1].voters@[state.polls@[poll_id - 1].voters@.len() - 1]@
            == info.sender@);
        assert(state.polls@[poll_id - 1].spec_has_voted(info.sender@));
        assert forall|k: int| 0 <= k < state.bank@.len() implies state.locks_wf(k) by {
            let locks = state.bank@[k].1.locked_tokens@;
            let addr = state.bank@[k].0@;
            if k < old(state).bank@.len() && locks == old(state).bank@[k].1.locked_tokens@ {
                // an untouched record: its locks still name polls its owner
                // voted on
                assert(old(state).locks_wf(k));
                assert(addr == old(state).bank@[k].0@);
                assert forall|l: int|
                    0 <= l < locks.len() implies 1 <= (#[trigger] locks[l]).0
                    <= state.config.poll_count && state.polls@[locks[l].0 - 1].spec_has_voted(
                    addr,
                ) by {
                    if locks[l].0 != poll_id {
                        assert(state.polls@[locks[l].0 - 1] == pre_polls[locks[l].0 - 1]);
                    }
                }
            } else {
                // the sender's record: exactly the new lock was appended
                let pre_slocks = old(state).spec_locks(info.sender@);
                assert(addr == info.sender@);
                assert(locks =~= pre_slocks.push((poll_id, weight)));
                assert forall|l: int|
                    0 <= l < locks.len() implies 1 <= (#[trigger] locks[l]).0
                    <= state.config.poll_count && state.polls@[locks[l].0 - 1].spec_has_voted(
                    addr,
                ) by {
                    if l < pre_slocks.len() {
                        assert(old(state).locks_wf(k));
                        assert(locks[l] == old(state).bank@[k].1.locked_tokens@[l]);
                        if locks[l].0 != poll_id {
                            assert(state.polls@[locks[l].0 - 1] == pre_polls[locks[l].0 - 1]);
                        }
                    }
                }
                assert forall|l1: int, l2: int|
                    0 <= l1 < l2 < locks.len() implies locks[l1].0 != locks[l2].0 by {
                    if l2 == locks.len() - 1 {
                        assert(locks[l1] == pre_slocks[l1]);
                        assert(pre_slocks[l1].0 != poll_id);
                    } else {
                        assert(old(state).locks_wf(k));
                        assert(locks[l1] == old(state).bank@[k].1.locked_tokens@[l1]);
                        assert(locks[l2] == old(state).bank@[k].1.locked_tokens@[l2]);
                    }
                }
            }
        }
    }
    Ok(ExecuteResponse::VoteCast { poll_id, weight, voter: info.sender.clone() })
}

/// Tallies never go negative.
pub proof fn lemma_tally_nonneg(info: Seq<Voter>)
    ensures
        tally_yes(info) >= 0,
        tally_no(info) >= 0,
    decreases info.len(),
{
    if info.len() > 0 {
        lemma_tally_nonneg(info.drop_last());
    }
}

/// A prefix never tallies more than the whole sequence.
pub proof fn lemma_tally_prefix_le(info: Seq<Voter>, i: int)
    requires
        0 <= i <= info.len(),
    ensures
        tally_yes(info.subrange(0, i)) <= tally_yes(info),
        tally_no(info.subrange(0, i)) <= tally_no(info),
    decreases info.len() - i,
{
    if i == info.len() {
        assert(info.subrange(0, i) =~= info);
    } else {
        lemma_tally_prefix_le(info, i + 1);
        assert(info.subrange(0, i + 1).drop_last() =~= info.subrange(0, i));
        lemma_tally_nonneg(info.subrange(0, i));
    }
}

/// Whether `addr` appears among the first `v` voters.
pub open spec fn is_voter_prefix(voters: Seq<String>, v: int, addr: Seq<char>) -> bool {
    exists|w: int| 0 <= w < v && voters[w]@ == addr
}

/// Everything ending a poll guarantees. Only the creator may end a poll
/// that is still in progress, once the voting window has opened and
/// expired. The ballots are tallied and resolved against the observed pool
/// balance; the status settles accordingly, exactly once, and every
/// voter's lock for this poll is released while every other lock, every
/// balance and the configuration stay untouched.
pub open spec fn end_poll_post(
    pre: ContractState,
    post: ContractState,
    env: Env,
    info: MessageInfo,
    poll_id: u64,
    r: Result<ExecuteResponse, ContractError>,
) -> bool {
    if !pre.has_poll(poll_id) {
        r == Err::<ExecuteResponse, ContractError>(ContractError::PollNotExist) && post == pre
    } else {
        let p = pre.spec_poll(poll_id);
        if p.creator@ != info.sender@ {
            &&& (r matches Err(ContractError::PollNotCreator { creator, sender }) && creator@
                == p.creator@ && sender@ == info.sender@)
            &&& post == pre
        } else if p.status != PollStatus::InProgress {
            r == Err::<ExecuteResponse, ContractError>(ContractError::PollNotInProgress) && post
                == pre
        } else if (p.start_height matches Some(sh) && sh > env.block_height) {
            &&& (r matches Err(ContractError::PoolVotingPeriodNotStarted { start_height })
                && Some(start_height) == p.start_height)
            &&& post == pre
        } else if p.end_height > env.block_height {
            r == Err::<ExecuteResponse, ContractError>(
                ContractError::PollVotingPeriodNotExpired { expire_height: p.end_height },
            ) && post == pre
        } else {
            let yes = tally_yes(p.voter_info@);
            let no = tally_no(p.voter_info@);
            let tallied = (yes + no) as u128;
            match spec_resolve(tallied, yes as u128, p.quorum_percentage, env.pool_balance) {
                Err(e) => r == Err::<ExecuteResponse, ContractError>(e) && post == pre,
                Ok(verdict) => {
                    let passed = verdict == Verdict::Passed;
                    &&& (r matches Ok(
                        ExecuteResponse::PollEnded { poll_id: rp, passed: rpass, rejected_reason },
                    ) && rp == poll_id && rpass == passed && rejected_reason == (match verdict {
                        Verdict::Passed => None,
                        Verdict::Rejected(reason) => Some(reason),
                    }))
                    &&& post.config == pre.config
                    &&& post.polls@.len() == pre.polls@.len()
                    &&& (forall|i: int|
                        0 <= i < pre.polls@.len() && i != poll_id - 1 ==> post.polls@[i]
                            == pre.polls@[i])
                    &&& {
                        let pp = post.spec_poll(poll_id);
                        &&& pp.status == (if passed {
                            PollStatus::Passed
                        } else {
                            PollStatus::Rejected
                        })
                        &&& pp.voters@ == p.voters@
                        &&& pp.voter_info@ == p.voter_info@
                        &&& pp.creator == p.creator
                        &&& pp.quorum_percentage == p.quorum_percentage
                        &&& pp.yes_votes == p.yes_votes
                        &&& pp.no_votes == p.no_votes
                        &&& pp.end_height == p.end_height
                        &&& pp.start_height == p.start_height
                        &&& pp.description == p.description
                    }
                    &&& post.bank@.len() == pre.bank@.len()
                    &&& (forall|k: int|
                        0 <= k < pre.bank@.len() ==> (#[trigger] post.bank@[k]).0@
                            == pre.bank@[k].0@ && post.bank@[k].1.token_balance
                            == pre.bank@[k].1.token_balance && post.bank@[k].1.participated_polls@
                            == pre.bank@[k].1.participated_polls@)
                    &&& (forall|k: int|
                        0 <= k < pre.bank@.len() && p.spec_has_voted(pre.bank@[k].0@)
                            ==> (#[trigger] post.bank@[k]).1.locked_tokens@ == remove_lock(
                            pre.bank@[k].1.locked_tokens@,
                            poll_id,
                        ))
                    &&& (forall|k: int|
                        0 <= k < pre.bank@.len() && !p.spec_has_voted(pre.bank@[k].0@)
                            ==> (#[trigger] post.bank@[k]).1.locked_tokens@
                            == pre.bank@[k].1.locked_tokens@)
                },
            }
        }
    }
}

/// The arithmetic room ending a poll needs: its tally must fit the token
/// width, and the quorum scaling must not overflow.
pub open spec fn end_poll_fits(s: ContractState, poll_id: u64, pool_balance: u128) -> bool {
    s.has_poll(poll_id) ==> {
        let p = s.spec_poll(poll_id);
        let tallied = tally_yes(p.voter_info@) + tally_no(p.voter_info@);
        &&& tallied <= u128::MAX
        &&& (pool_balance > 0 ==> (tallied / (pool_balance as int)) * 100 <= u128::MAX)
    }
}

/// An exact copy of a voter list.
fn clone_voters(voters: &Vec<String>) -> (r: Vec<String>)
    ensures
        r@ == voters@,
{
    let mut r: Vec<String> = Vec::new();
    let mut i: usize = 0;
    while i < voters.len()
        invariant
            i <= voters@.len(),
            r@ == voters@.subrange(0, i as int),
        decreases voters@.len() - i,
    {
        r.push(voters[i].clone());
        proof {
            assert(r@ =~= voters@.subrange(0, (i + 1) as int));
        }
        i = i + 1;
    }
    proof {
        assert(voters@.subrange(0, voters@.len() as int) =~= voters@);
    }
    r
}

/// Ends a poll: tallies the ballots, resolves them against the observed
/// pool balance, settles the status and releases every voter's lock for
/// this poll.
#[verifier::loop_isolation(false)]
#[verifier::rlimit(60)]
pub fn end_poll(state: &mut ContractState, env: &Env, info: &MessageInfo, poll_id: u64) -> (r:
    Result<ExecuteResponse, ContractError>)
    requires
        old(state).wf(),
        end_poll_fits(*old(state), poll_id, env.pool_balance),
    ensures
        final(state).wf(),
        end_poll_post(*old(state), *final(state), *env, *info, poll_id, r),
        status_evolution_ok(*old(state), *final(state)),
{
    if poll_id == 0 || poll_id > state.config.poll_count {
        // no poll record is stored outside 1..=poll_count
        return Err(ContractError::PollNotExist);
    }
    let pi: usize = (poll_id - 1) as usize;
    proof {
        assert(poll_id - 1 < state.polls@.len());
        vstd::std_specs::vec::axiom_spec_len(&state.polls);
        assert(pi as int == poll_id - 1);
    }
    if state.polls[pi].creator != info.sender {
        return Err(
            ContractError::PollNotCreator {
                creator: state.polls[pi].creator.clone(),
                sender: info.sender.clone(),
            },
        );
    }
    if state.polls[pi].status != PollStatus::InProgress {
        return Err(ContractError::PollNotInProgress);
    }
    if let Some(start_height) = state.polls[pi].start_height {
        if start_height > env.block_height {
            return Err(ContractError::PoolVotingPeriodNotStarted { start_height });
        }
    }
    if state.polls[pi].end_height > env.block_height {
        return Err(
            ContractError::PollVotingPeriodNotExpired { expire_height: state.polls[pi].end_height },
        );
    }
    let ghost p0 = state.polls@[pi as int];
    // tally the ballots
    let mut yes: u128 = 0;
    let mut no: u128 = 0;
    let nv: usize = state.polls[pi].voter_info.len();
    let mut t: usize = 0;
    while t < nv
        invariant
            t <= nv,
            yes == tally_yes(p0.voter_info@.subrange(0, t as int)),
            no == tally_no(p0.voter_info@.subrange(0, t as int)),
            state.polls@[pi as int] == p0,
        decreases nv - t,
    {
        proof {
            lemma_tally_prefix_le(p0.voter_info@, (t + 1) as int);
            lemma_tally_nonneg(p0.voter_info@);
            lemma_tally_nonneg(p0.voter_info@.subrange(0, t as int));
            lemma_tally_nonneg(p0.voter_info@.subrange(0, (t + 1) as int));
            assert(p0.voter_info@.subrange(0, (t + 1) as int).drop_last() =~= p0.voter_info@
                .subrange(0, t as int));
        }
        let voter = state.polls[pi].voter_info[t];
        if voter.vote == VoteChoice::Yes {
            yes = yes + voter.weight;
        } else {
            no = no + voter.weight;
        }
        t = t + 1;
    }
    proof {
        assert(p0.voter_info@.subrange(0, nv as int) =~= p0.voter_info@);
    }
    let tallied_weight: u128 = yes + no;
    // resolve against the externally observed pool balance
    let verdict = match crate::resolver::resolve(
        tallied_weight,
        yes,
        state.polls[pi].quorum_percentage,
        env.pool_balance,
    ) {
        Err(e) => {
            return Err(e);
        },
        Ok(v) => v,
    };
    let passed: bool = match verdict {
        Verdict::Passed => true,
        Verdict::Rejected(_) => false,
    };
    if passed {
        state.polls[pi].status = PollStatus::Passed;
    } else {
        state.polls[pi].status = PollStatus::Rejected;
    }
    proof {
        assert(state.polls@ =~= old(state).polls@.update(pi as int, state.polls@[pi as int]));
    }
    // release every voter's lock for this poll
    let voters_c = clone_voters(&state.polls[pi].voters);
    let ghost bank0 = state.bank@;
    let ghost polls1 = state.polls@;
    let nvoters: usize = voters_c.len();
    let mut v: usize = 0;
    while v < nvoters
        invariant
            v <= nvoters,
            state.polls@ == polls1,
            state.config == old(state).config,
            state.bank@.len() == bank0.len(),
            forall|k: int|
                0 <= k < bank0.len() ==> (#[trigger] state.bank@[k]).0@ == bank0[k].0@
                    && state.bank@[k].1.token_balance == bank0[k].1.token_balance
                    && state.bank@[k].1.participated_polls@ == bank0[k].1.participated_polls@,
            forall|k: int|
                0 <= k < bank0.len() && is_voter_prefix(p0.voters@, v as int, bank0[k].0@)
                    ==> (#[trigger] state.bank@[k]).1.locked_tokens@ == remove_lock(
                    bank0[k].1.locked_tokens@,
                    poll_id,
                ),
            forall|k: int|
                0 <= k < bank0.len() && !is_voter_prefix(p0.voters@, v as int, bank0[k].0@)
                    ==> (#[trigger] state.bank@[k]).1.locked_tokens@
                    == bank0[k].1.locked_tokens@,
        decreases nvoters - v,
    {
        let ghost addr = voters_c@[v as int]@;
        proof {
            assert(addr == old(state).polls@[pi as int].voters@[v as int]@);
            assert(lookup(bank0, addr) is Some);
            crate::bank::lemma_lookup_some_iff_key(bank0, addr);
            let k = choose|k: int| 0 <= k < bank0.len() && (#[trigger] bank0[k]).0@ == addr;
            assert(state.bank@[k].0@ == addr);
            crate::bank::lemma_lookup_some_iff_key(state.bank@, addr);
        }
        let ghost pre_loop_bank = state.bank@;
        match crate::bank::unlock_tokens(&mut state.bank, &voters_c[v], poll_id) {
            Ok(_) => {},
            Err(e) => {
                // unreachable: unlocking cannot fail
                return Err(e);
            },
        }
        proof {
            assert forall|k: int|
                0 <= k < bank0.len() && is_voter_prefix(
                    p0.voters@,
                    (v + 1) as int,
                    bank0[k].0@,
                ) implies (#[trigger] state.bank@[k]).1.locked_tokens@ == remove_lock(
                bank0[k].1.locked_tokens@,
                poll_id,
            ) by {
                if bank0[k].0@ == addr {
                    // this voter's entry was untouched until now: a voter
                    // appears only once per poll
                    assert(!is_voter_prefix(p0.voters@, v as int, bank0[k].0@));
                    assert(pre_loop_bank[k].1.locked_tokens@ == bank0[k].1.locked_tokens@);
                } else {
                    assert(is_voter_prefix(p0.voters@, v as int, bank0[k].0@));
                }
            }
            assert forall|k: int|
                0 <= k < bank0.len() && !is_voter_prefix(
                    p0.voters@,
                    (v + 1) as int,
                    bank0[k].0@,
                ) implies (#[trigger] state.bank@[k]).1.locked_tokens@
                == bank0[k].1.locked_tokens@ by {
                assert(bank0[k].0@ != addr);
                assert(!is_voter_prefix(p0.voters@, v as int, bank0[k].0@));
            }
        }
        v = v + 1;
    }
    proof {
        assert forall|k: int| 0 <= k < bank0.len() implies (p0.spec_has_voted(bank0[k].0@)
            <==> is_voter_prefix(p0.voters@, nvoters as int, bank0[k].0@)) by {}
        crate::bank::lemma_sum_pointwise_eq(state.bank@, old(state).bank@);
        assert forall|k: int|
            0 <= k < state.bank@.len() implies max_locked(
            (#[trigger] state.bank@[k]).1.locked_tokens@,
        ) <= state.bank@[k].1.token_balance by {
            if is_voter_prefix(p0.voters@, nvoters as int, bank0[k].0@) {
                crate::bank::lemma_max_locked_remove(bank0[k].1.locked_tokens@, poll_id);
            }
        }
        assert forall|i: int, v2: int|
            0 <= i < state.polls@.len() && 0 <= v2 < state.polls@[i].voters@.len() implies lookup(
            state.bank@,
            #[trigger] state.polls@[i].voters@[v2]@,
        ) is Some by {
            let a = state.polls@[i].voters@[v2]@;
            assert(a == old(state).polls@[i].voters@[v2]@);
            assert(lookup(old(state).bank@, a) is Some);
            crate::bank::lemma_lookup_some_iff_key(old(state).bank@, a);
            let k = choose|k: int|
                0 <= k < old(state).bank@.len() && (#[trigger] old(state).bank@[k]).0@ == a;
            assert(state.bank@[k].0@ == a);
            crate::bank::lemma_lookup_some_iff_key(state.bank@, a);
        }
        // locks only disappeared, and ballots did not move: every surviving
        // lock still names an existing poll its owner voted on, once
        assert forall|k: int| 0 <= k < state.bank@.len() implies state.locks_wf(k) by {
            assert(old(state).locks_wf(k));
            let locks = state.bank@[k].1.locked_tokens@;
            let addr = state.bank@[k].0@;
            assert(addr == bank0[k].0@);
            if is_voter_prefix(p0.voters@, nvoters as int, bank0[k].0@) {
                crate::bank::lemma_remove_lock_wf(bank0[k].1.locked_tokens@, poll_id);
                assert(locks == remove_lock(bank0[k].1.locked_tokens@, poll_id));
                assert forall|l: int|
                    0 <= l < locks.len() implies 1 <= (#[trigger] locks[l]).0
                    <= state.config.poll_count && state.polls@[locks[l].0 - 1].spec_has_voted(
                    addr,
                ) by {
                    assert(bank0[k].1.locked_tokens@.contains(locks[l]));
                    let w = choose|w: int|
                        0 <= w < bank0[k].1.locked_tokens@.len() && bank0[k].1.locked_tokens@[w]
                            == locks[l];
                    assert(old(state).bank@[k].1.locked_tokens@[w] == locks[l]);
                    assert(old(state).polls@[locks[l].0 - 1].spec_has_voted(addr));
                    let v3 = choose|v3: int|
                        0 <= v3 < old(state).polls@[locks[l].0 - 1].voters@.len() && (#[trigger] old(
                            state,
                        ).polls@[locks[l].0 - 1].voters@[v3])@ == addr;
                    assert(state.polls@[locks[l].0 - 1].voters@[v3]@ == addr);
                }
            } else {
                assert(locks == bank0[k].1.locked_tokens@);
                assert forall|l: int|
                    0 <= l < locks.len() implies 1 <= (#[trigger] locks[l]).0
                    <= state.config.poll_count && state.polls@[locks[l].0 - 1].spec_has_voted(
                    addr,
                ) by {
                    assert(old(state).bank@[k].1.locked_tokens@[l] == locks[l]);
                    assert(old(state).polls@[locks[l].0 - 1].spec_has_voted(addr));
                    let v3 = choose|v3: int|
                        0 <= v3 < old(state).polls@[locks[l].0 - 1].voters@.len() && (#[trigger] old(
                            state,
                        ).polls@[locks[l].0 - 1].voters@[v3])@ == addr;
                    assert(state.polls@[locks[l].0 - 1].voters@[v3]@ == addr);
                }
            }
        }
    }
    Ok(
        ExecuteResponse::PollEnded {
            poll_id,
            passed,
            rejected_reason: match verdict {
                Verdict::Passed => None,
                Verdict::Rejected(reason) => Some(reason),
            },
        },
    )
}

/// The arithmetic room an invocation needs, by request kind; every bound is
/// forced by the token and height widths, not by the rules themselves.
pub open spec fn execute_fits(
    s: ContractState,
    env: Env,
    info: MessageInfo,
    msg: ExecuteMsg,
) -> bool {
    match msg {
        ExecuteMsg::StakeVotingTokens => s.config.staked_tokens + spec_sent_amount(
            info.funds@,
            s.config.denom@,
        ) <= u128::MAX,
        ExecuteMsg::WithdrawVotingTokens { .. } => true,
        ExecuteMsg::CastVote { .. } => true,
        ExecuteMsg::EndPoll { poll_id } => end_poll_fits(s, poll_id, env.pool_balance),
        ExecuteMsg::CreatePoll { end_height, .. } => s.config.poll_count < u64::MAX && (end_height
            is None ==> env.block_height + DEFAULT_END_HEIGHT_BLOCKS <= u64::MAX),
    }
}

/// Applies one request to the state: exactly one of the five operations
/// runs, and its full contract carries over.
pub fn execute(state: &mut ContractState, env: &Env, info: &MessageInfo, msg: ExecuteMsg) -> (r:
    Result<ExecuteResponse, ContractError>)
    requires
        old(state).wf(),
        execute_fits(*old(state), *env, *info, msg),
    ensures
        final(state).wf(),
        status_evolution_ok(*old(state), *final(state)),
        match msg {
            ExecuteMsg::StakeVotingTokens => stake_post(*old(state), *final(state), *info, r),
            ExecuteMsg::WithdrawVotingTokens { amount } => withdraw_post(
                *old(state),
                *final(state),
                *info,
                amount,
                r,
            ),
            ExecuteMsg::CastVote { poll_id, vote, weight } => cast_vote_post(
                *old(state),
                *final(state),
                *info,
                poll_id,
                vote,
                weight,
                r,
            ),
            ExecuteMsg::EndPoll { poll_id } => end_poll_post(
                *old(state),
                *final(state),
                *env,
                *info,
                poll_id,
                r,
            ),
            ExecuteMsg::CreatePoll { quorum_percentage, description, start_height, end_height } =>
                create_poll_post(
                *old(state),
                *final(state),
                *info,
                quorum_percentage,
                description,
                start_height,
                end_height,
                env.block_height,
                r,
            ),
        },
{
    match msg {
        ExecuteMsg::StakeVotingTokens => stake_voting_tokens(state, env, info),
        ExecuteMsg::WithdrawVotingTokens { amount } => withdraw_voting_tokens(
            state,
            env,
            info,
            amount,
        ),
        ExecuteMsg::CastVote { poll_id, vote, weight } => cast_vote(
            state,
            env,
            info,
            poll_id,
            vote,
            weight,
        ),
        ExecuteMsg::EndPoll { poll_id } => end_poll(state, env, info, poll_id),
        ExecuteMsg::CreatePoll { quorum_percentage, description, start_height, end_height } =>
            create_poll(state, env, info, quorum_percentage, description, start_height, end_height),
    }
}

/// The sender's staked balance; an account that never staked reads as zero.
fn token_balance(state: &ContractState, address: &String) -> (r: QueryResponse)
    ensures
        (r matches QueryResponse::TokenStake(t) && t.token_balance == state.spec_balance(
            address@,
        )),
{
    let tb: u128 = match find_account(&state.bank, address) {
        Some(i) => {
            proof {
                lemma_lookup_at_index(state.bank@, i as int);
            }
            state.bank[i].1.token_balance
        },
        None => {
            proof {
                lemma_lookup_none(state.bank@, address@);
            }
            0
        },
    };
    QueryResponse::TokenStake(TokenStakeResponse { token_balance: tb })
}

/// A poll's public record, or a not-found failure.
fn query_poll(state: &ContractState, poll_id: u64) -> (r: Result<QueryResponse, ContractError>)
    requires
        state.wf(),
    ensures
        state.has_poll(poll_id) ==> {
            let p = state.spec_poll(poll_id);
            r matches Ok(QueryResponse::Poll(pr)) && pr.creator@ == p.creator@ && pr.status
                == p.status && pr.quorum_percentage == p.quorum_percentage && pr.end_height
                == Some(p.end_height) && pr.start_height == p.start_height && pr.description@
                == p.description@
        },
        !state.has_poll(poll_id) ==> r == Err::<QueryResponse, ContractError>(
            ContractError::PollNotExist,
        ),
{
    if poll_id == 0 || poll_id > state.config.poll_count {
        return Err(ContractError::PollNotExist);
    }
    let pi: usize = (poll_id - 1) as usize;
    proof {
        assert(poll_id - 1 < state.polls@.len());
        vstd::std_specs::vec::axiom_spec_len(&state.polls);
        assert(pi as int == poll_id - 1);
    }
    Ok(
        QueryResponse::Poll(
            PollResponse {
                creator: state.polls[pi].creator.clone(),
                status: state.polls[pi].status,
                quorum_percentage: state.polls[pi].quorum_percentage,
                end_height: Some(state.polls[pi].end_height),
                start_height: state.polls[pi].start_height,
                description: state.polls[pi].description.clone(),
            },
        ),
    )
}

/// Answers one read-only request without touching the state.
pub fn query(state: &ContractState, msg: QueryMsg) -> (r: Result<QueryResponse, ContractError>)
    requires
        state.wf(),
    ensures
        match msg {
            QueryMsg::Config => (r matches Ok(QueryResponse::Config(c)) && c == state.config),
            QueryMsg::TokenStake { address } => (r matches Ok(QueryResponse::TokenStake(t))
                && t.token_balance == state.spec_balance(address@)),
            QueryMsg::Poll { poll_id } => if state.has_poll(poll_id) {
                let p = state.spec_poll(poll_id);
                r matches Ok(QueryResponse::Poll(pr)) && pr.creator@ == p.creator@ && pr.status
                    == p.status && pr.quorum_percentage == p.quorum_percentage && pr.end_height
                    == Some(p.end_height) && pr.start_height == p.start_height && pr.description@
                    == p.description@
            } else {
                r == Err::<QueryResponse, ContractError>(ContractError::PollNotExist)
            },
        },
{
    match msg {
        QueryMsg::Config => Ok(
            QueryResponse::Config(
                State {
                    denom: state.config.denom.clone(),
                    owner: state.config.owner.clone(),
                    poll_count: state.config.poll_count,
                    staked_tokens: state.config.staked_tokens,
                },
            ),
        ),
        QueryMsg::TokenStake { address } => Ok(token_balance(state, &address)),
        QueryMsg::Poll { poll_id } => query_poll(state, poll_id),
    }
}

} // verus!

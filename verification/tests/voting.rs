use voting::contract::{execute, instantiate, query, validate_description, validate_quorum_percentage};
use voting::error::ContractError;
use voting::msg::{Coin, Env, ExecuteMsg, ExecuteResponse, MessageInfo, QueryMsg, QueryResponse, RejectionReason};
use voting::state::{ContractState, PollStatus, VoteChoice};

const DENOM: &str = "voting_token";

fn coin(amount: u128) -> Coin {
    Coin { denom: DENOM.to_string(), amount }
}

fn info(sender: &str, funds: Vec<Coin>) -> MessageInfo {
    MessageInfo { sender: sender.to_string(), funds }
}

fn env(block_height: u64, pool_balance: u128) -> Env {
    Env { block_height, pool_balance }
}

fn fresh() -> ContractState {
    instantiate(DENOM.to_string(), "creator".to_string())
}

fn stake(state: &mut ContractState, sender: &str, amount: u128) {
    let r = execute(
        state,
        &env(0, 0),
        &info(sender, vec![coin(amount)]),
        ExecuteMsg::StakeVotingTokens,
    );
    assert!(r.is_ok());
}

fn create_poll(
    state: &mut ContractState,
    sender: &str,
    quorum: Option<u8>,
    description: &str,
    start_height: Option<u64>,
    end_height: Option<u64>,
) -> Result<ExecuteResponse, ContractError> {
    execute(
        state,
        &env(0, 0),
        &info(sender, vec![]),
        ExecuteMsg::CreatePoll {
            quorum_percentage: quorum,
            description: description.to_string(),
            start_height,
            end_height,
        },
    )
}

fn vote(
    state: &mut ContractState,
    sender: &str,
    poll_id: u64,
    choice: VoteChoice,
    weight: u128,
) -> Result<ExecuteResponse, ContractError> {
    execute(
        state,
        &env(0, 0),
        &info(sender, vec![]),
        ExecuteMsg::CastVote { poll_id, vote: choice, weight },
    )
}

fn balance_of(state: &ContractState, addr: &str) -> u128 {
    match query(state, QueryMsg::TokenStake { address: addr.to_string() }) {
        Ok(QueryResponse::TokenStake(t)) => t.token_balance,
        other => panic!("unexpected token stake reply: {:?}", other),
    }
}

fn staked_total(state: &ContractState) -> u128 {
    match query(state, QueryMsg::Config) {
        Ok(QueryResponse::Config(c)) => c.staked_tokens,
        other => panic!("unexpected config reply: {:?}", other),
    }
}

fn poll_status(state: &ContractState, poll_id: u64) -> PollStatus {
    match query(state, QueryMsg::Poll { poll_id }) {
        Ok(QueryResponse::Poll(p)) => p.status,
        other => panic!("unexpected poll reply: {:?}", other),
    }
}

#[test]
fn instantiate_starts_empty() {
    let state = fresh();
    match query(&state, QueryMsg::Config) {
        Ok(QueryResponse::Config(c)) => {
            assert_eq!(c.denom, DENOM);
            assert_eq!(c.owner, "creator");
            assert_eq!(c.poll_count, 0);
            assert_eq!(c.staked_tokens, 0);
        }
        other => panic!("unexpected config reply: {:?}", other),
    }
}

#[test]
fn stake_accumulates_balances() {
    let mut state = fresh();
    stake(&mut state, "alice", 100);
    stake(&mut state, "alice", 25);
    stake(&mut state, "bob", 50);
    assert_eq!(balance_of(&state, "alice"), 125);
    assert_eq!(balance_of(&state, "bob"), 50);
    assert_eq!(balance_of(&state, "nobody"), 0);
    assert_eq!(staked_total(&state), 175);
}

#[test]
fn stake_wrong_denom_fails() {
    let mut state = fresh();
    let funds = vec![Coin { denom: "other_token".to_string(), amount: 100 }];
    let r = execute(&mut state, &env(0, 0), &info("alice", funds), ExecuteMsg::StakeVotingTokens);
    assert_eq!(r.unwrap_err(), ContractError::InsufficientFundsSent);
    assert_eq!(staked_total(&state), 0);
}

#[test]
fn stake_no_funds_fails() {
    let mut state = fresh();
    let r = execute(&mut state, &env(0, 0), &info("alice", vec![]), ExecuteMsg::StakeVotingTokens);
    assert_eq!(r.unwrap_err(), ContractError::InsufficientFundsSent);
}

#[test]
fn withdraw_full_balance_by_default() {
    // an account with balance 100 and no locks withdraws everything
    let mut state = fresh();
    stake(&mut state, "alice", 100);
    let r = execute(
        &mut state,
        &env(0, 0),
        &info("alice", vec![]),
        ExecuteMsg::WithdrawVotingTokens { amount: None },
    )
    .unwrap();
    match r {
        ExecuteResponse::Transfer { to_address, amount, denom } => {
            assert_eq!(to_address, "alice");
            assert_eq!(amount, 100);
            assert_eq!(denom, DENOM);
        }
        other => panic!("expected a fund transfer, got {:?}", other),
    }
    assert_eq!(balance_of(&state, "alice"), 0);
    assert_eq!(staked_total(&state), 0);
}

#[test]
fn withdraw_without_stake_fails() {
    let mut state = fresh();
    let r = execute(
        &mut state,
        &env(0, 0),
        &info("alice", vec![]),
        ExecuteMsg::WithdrawVotingTokens { amount: None },
    );
    assert_eq!(r.unwrap_err(), ContractError::PollNoStake);
}

#[test]
fn withdraw_is_gated_by_largest_lock() {
    let mut state = fresh();
    stake(&mut state, "creator", 100);
    create_poll(&mut state, "creator", None, "a poll", None, Some(10)).unwrap();
    vote(&mut state, "creator", 1, VoteChoice::Yes, 60).unwrap();
    // more than balance - largest lock always fails, and nothing moves
    let r = execute(
        &mut state,
        &env(0, 0),
        &info("creator", vec![]),
        ExecuteMsg::WithdrawVotingTokens { amount: Some(50) },
    );
    assert_eq!(r.unwrap_err(), ContractError::ExcessiveWithdraw { max_amount: 40 });
    assert_eq!(balance_of(&state, "creator"), 100);
    assert_eq!(staked_total(&state), 100);
    // exactly balance - largest lock succeeds and leaves the locked amount
    let r = execute(
        &mut state,
        &env(0, 0),
        &info("creator", vec![]),
        ExecuteMsg::WithdrawVotingTokens { amount: Some(40) },
    );
    assert!(r.is_ok());
    assert_eq!(balance_of(&state, "creator"), 60);
    assert_eq!(staked_total(&state), 60);
}

#[test]
fn create_poll_short_description_fails() {
    let mut state = fresh();
    let r = create_poll(&mut state, "creator", Some(30), "ab", None, None);
    assert_eq!(r.unwrap_err(), ContractError::DescriptionTooShort { min_desc_length: 3 });
    // nothing was persisted
    assert_eq!(
        query(&state, QueryMsg::Poll { poll_id: 1 }).unwrap_err(),
        ContractError::PollNotExist
    );
    match query(&state, QueryMsg::Config) {
        Ok(QueryResponse::Config(c)) => assert_eq!(c.poll_count, 0),
        other => panic!("unexpected config reply: {:?}", other),
    }
}

#[test]
fn create_poll_long_description_fails() {
    let mut state = fresh();
    let text = "x".repeat(65);
    let r = create_poll(&mut state, "creator", None, &text, None, None);
    assert_eq!(r.unwrap_err(), ContractError::DescriptionTooLong { max_desc_length: 64 });
}

#[test]
fn create_poll_bad_quorum_fails() {
    let mut state = fresh();
    let r = create_poll(&mut state, "creator", Some(101), "test poll", None, None);
    assert_eq!(
        r.unwrap_err(),
        ContractError::PollQuorumPercentageMismatch { quorum_percentage: 101 }
    );
}

#[test]
fn create_poll_end_height_in_past_fails() {
    let mut state = fresh();
    let r = execute(
        &mut state,
        &env(100, 0),
        &info("creator", vec![]),
        ExecuteMsg::CreatePoll {
            quorum_percentage: None,
            description: "test poll".to_string(),
            start_height: None,
            end_height: Some(100),
        },
    );
    assert_eq!(r.unwrap_err(), ContractError::PollCannotEndInPast);
}

#[test]
fn create_poll_reports_its_fields() {
    let mut state = fresh();
    let r = create_poll(&mut state, "creator", Some(30), "test poll", None, Some(10)).unwrap();
    match r {
        ExecuteResponse::PollCreated { creator, poll_id, quorum_percentage, end_height, start_height } => {
            assert_eq!(creator, "creator");
            assert_eq!(poll_id, 1);
            assert_eq!(quorum_percentage, 30);
            assert_eq!(end_height, 10);
            assert_eq!(start_height, 0);
        }
        other => panic!("expected a poll creation report, got {:?}", other),
    }
    assert_eq!(poll_status(&state, 1), PollStatus::InProgress);
}

#[test]
fn default_end_height_is_a_fixed_window() {
    let mut state = fresh();
    let r = execute(
        &mut state,
        &env(5, 0),
        &info("creator", vec![]),
        ExecuteMsg::CreatePoll {
            quorum_percentage: None,
            description: "test poll".to_string(),
            start_height: None,
            end_height: None,
        },
    )
    .unwrap();
    match r {
        ExecuteResponse::PollCreated { end_height, .. } => assert_eq!(end_height, 5 + 100_800),
        other => panic!("expected a poll creation report, got {:?}", other),
    }
}

#[test]
fn vote_on_missing_poll_fails() {
    let mut state = fresh();
    let r = vote(&mut state, "alice", 1, VoteChoice::Yes, 0);
    assert_eq!(r.unwrap_err(), ContractError::PollNotExist);
    create_poll(&mut state, "creator", None, "first poll", None, Some(10)).unwrap();
    create_poll(&mut state, "creator", None, "second poll", None, Some(10)).unwrap();
    // id zero and ids beyond the counter name no poll
    let r = vote(&mut state, "alice", 0, VoteChoice::Yes, 0);
    assert_eq!(r.unwrap_err(), ContractError::PollNotExist);
    let r = vote(&mut state, "alice", 3, VoteChoice::Yes, 0);
    assert_eq!(r.unwrap_err(), ContractError::PollNotExist);
}

#[test]
fn older_polls_accept_votes_while_in_progress() {
    // a poll stays open to votes after newer polls are created, and the
    // one-vote-per-poll rule still holds on it
    let mut state = fresh();
    stake(&mut state, "alice", 30);
    create_poll(&mut state, "creator", None, "first poll", None, Some(10)).unwrap();
    create_poll(&mut state, "creator", None, "second poll", None, Some(10)).unwrap();
    let r = vote(&mut state, "alice", 1, VoteChoice::Yes, 30);
    assert!(r.is_ok());
    let r = vote(&mut state, "alice", 1, VoteChoice::No, 10);
    assert_eq!(r.unwrap_err(), ContractError::PollSenderVoted);
    let r = vote(&mut state, "alice", 2, VoteChoice::Yes, 20);
    assert!(r.is_ok());
}

#[test]
fn vote_with_more_than_stake_fails() {
    let mut state = fresh();
    stake(&mut state, "alice", 10);
    create_poll(&mut state, "creator", None, "test poll", None, Some(10)).unwrap();
    let r = vote(&mut state, "alice", 1, VoteChoice::Yes, 11);
    assert_eq!(r.unwrap_err(), ContractError::PollInsufficientStake);
    let r = vote(&mut state, "alice", 1, VoteChoice::Yes, 10);
    assert!(r.is_ok());
}

#[test]
fn second_vote_always_fails() {
    let mut state = fresh();
    stake(&mut state, "alice", 100);
    create_poll(&mut state, "creator", None, "test poll", None, Some(10)).unwrap();
    vote(&mut state, "alice", 1, VoteChoice::Yes, 10).unwrap();
    // a second vote fails whatever its content or weight
    let r = vote(&mut state, "alice", 1, VoteChoice::No, 5);
    assert_eq!(r.unwrap_err(), ContractError::PollSenderVoted);
    let r = vote(&mut state, "alice", 1, VoteChoice::Yes, 10);
    assert_eq!(r.unwrap_err(), ContractError::PollSenderVoted);
}

#[test]
fn end_poll_requires_creator() {
    let mut state = fresh();
    create_poll(&mut state, "creator", None, "test poll", None, Some(10)).unwrap();
    let r = execute(
        &mut state,
        &env(10, 0),
        &info("mallory", vec![]),
        ExecuteMsg::EndPoll { poll_id: 1 },
    );
    assert_eq!(
        r.unwrap_err(),
        ContractError::PollNotCreator { creator: "creator".to_string(), sender: "mallory".to_string() }
    );
}

#[test]
fn end_poll_respects_voting_window() {
    let mut state = fresh();
    create_poll(&mut state, "creator", None, "test poll", Some(5), Some(10)).unwrap();
    let r = execute(&mut state, &env(3, 0), &info("creator", vec![]), ExecuteMsg::EndPoll { poll_id: 1 });
    assert_eq!(r.unwrap_err(), ContractError::PoolVotingPeriodNotStarted { start_height: 5 });
    let r = execute(&mut state, &env(8, 0), &info("creator", vec![]), ExecuteMsg::EndPoll { poll_id: 1 });
    assert_eq!(r.unwrap_err(), ContractError::PollVotingPeriodNotExpired { expire_height: 10 });
}

#[test]
fn end_poll_without_votes_rejects_for_quorum() {
    let mut state = fresh();
    create_poll(&mut state, "creator", None, "test poll", None, Some(10)).unwrap();
    let r = execute(&mut state, &env(10, 0), &info("creator", vec![]), ExecuteMsg::EndPoll { poll_id: 1 })
        .unwrap();
    match r {
        ExecuteResponse::PollEnded { poll_id, passed, rejected_reason } => {
            assert_eq!(poll_id, 1);
            assert!(!passed);
            assert_eq!(rejected_reason, Some(RejectionReason::QuorumNotReached));
        }
        other => panic!("expected a poll end report, got {:?}", other),
    }
    assert_eq!(poll_status(&state, 1), PollStatus::Rejected);
}

#[test]
fn end_poll_with_votes_but_empty_pool_fails() {
    let mut state = fresh();
    stake(&mut state, "creator", 100);
    create_poll(&mut state, "creator", None, "test poll", None, Some(10)).unwrap();
    vote(&mut state, "creator", 1, VoteChoice::Yes, 100).unwrap();
    let r = execute(&mut state, &env(10, 0), &info("creator", vec![]), ExecuteMsg::EndPoll { poll_id: 1 });
    assert_eq!(r.unwrap_err(), ContractError::PollNoStake);
    // the failure left the poll untouched
    assert_eq!(poll_status(&state, 1), PollStatus::InProgress);
}

#[test]
fn quorum_fixture_passes_with_full_participation() {
    // two accounts stake 100 and 50; both vote before the end height; the
    // observed pool balance at the end is 150, so the tallied weight covers
    // the whole pool. The quorum formula divides before scaling, so this
    // fixture yields exactly 100 percent, meets the 30 percent quorum, and
    // the strict majority of yes weight passes the poll.
    let mut state = fresh();
    stake(&mut state, "creator", 100);
    stake(&mut state, "bob", 50);
    create_poll(&mut state, "creator", Some(30), "test poll", None, Some(10)).unwrap();
    vote(&mut state, "creator", 1, VoteChoice::Yes, 100).unwrap();
    vote(&mut state, "bob", 1, VoteChoice::No, 50).unwrap();
    let r = execute(
        &mut state,
        &env(10, 150),
        &info("creator", vec![]),
        ExecuteMsg::EndPoll { poll_id: 1 },
    )
    .unwrap();
    match r {
        ExecuteResponse::PollEnded { passed, rejected_reason, .. } => {
            assert!(passed);
            assert_eq!(rejected_reason, None);
        }
        other => panic!("expected a poll end report, got {:?}", other),
    }
    assert_eq!(poll_status(&state, 1), PollStatus::Passed);
}

#[test]
fn quorum_truncates_to_zero_below_full_participation() {
    // the divide-first order truncates any participation short of the whole
    // pool to zero percent, so the same votes against a pool of 151 fail a
    // 30 percent quorum
    let mut state = fresh();
    stake(&mut state, "creator", 100);
    stake(&mut state, "bob", 50);
    create_poll(&mut state, "creator", Some(30), "test poll", None, Some(10)).unwrap();
    vote(&mut state, "creator", 1, VoteChoice::Yes, 100).unwrap();
    vote(&mut state, "bob", 1, VoteChoice::No, 50).unwrap();
    let r = execute(
        &mut state,
        &env(10, 151),
        &info("creator", vec![]),
        ExecuteMsg::EndPoll { poll_id: 1 },
    )
    .unwrap();
    match r {
        ExecuteResponse::PollEnded { passed, rejected_reason, .. } => {
            assert!(!passed);
            assert_eq!(rejected_reason, Some(RejectionReason::QuorumNotReached));
        }
        other => panic!("expected a poll end report, got {:?}", other),
    }
    assert_eq!(poll_status(&state, 1), PollStatus::Rejected);
}

#[test]
fn threshold_needs_strict_majority() {
    // yes weight equal to half the tally is not a strict majority
    let mut state = fresh();
    stake(&mut state, "creator", 50);
    stake(&mut state, "bob", 50);
    create_poll(&mut state, "creator", None, "test poll", None, Some(10)).unwrap();
    vote(&mut state, "creator", 1, VoteChoice::Yes, 50).unwrap();
    vote(&mut state, "bob", 1, VoteChoice::No, 50).unwrap();
    let r = execute(
        &mut state,
        &env(10, 100),
        &info("creator", vec![]),
        ExecuteMsg::EndPoll { poll_id: 1 },
    )
    .unwrap();
    match r {
        ExecuteResponse::PollEnded { passed, rejected_reason, .. } => {
            assert!(!passed);
            assert_eq!(rejected_reason, Some(RejectionReason::ThresholdNotReached));
        }
        other => panic!("expected a poll end report, got {:?}", other),
    }
}

#[test]
fn status_settles_exactly_once() {
    let mut state = fresh();
    create_poll(&mut state, "creator", None, "test poll", None, Some(10)).unwrap();
    assert_eq!(poll_status(&state, 1), PollStatus::InProgress);
    execute(&mut state, &env(10, 0), &info("creator", vec![]), ExecuteMsg::EndPoll { poll_id: 1 })
        .unwrap();
    assert_eq!(poll_status(&state, 1), PollStatus::Rejected);
    // a second attempt cannot move the settled status
    let r = execute(&mut state, &env(10, 0), &info("creator", vec![]), ExecuteMsg::EndPoll { poll_id: 1 });
    assert_eq!(r.unwrap_err(), ContractError::PollNotInProgress);
    assert_eq!(poll_status(&state, 1), PollStatus::Rejected);
}

#[test]
fn voting_on_settled_poll_fails() {
    let mut state = fresh();
    stake(&mut state, "alice", 10);
    create_poll(&mut state, "creator", None, "test poll", None, Some(10)).unwrap();
    execute(&mut state, &env(10, 0), &info("creator", vec![]), ExecuteMsg::EndPoll { poll_id: 1 })
        .unwrap();
    let r = vote(&mut state, "alice", 1, VoteChoice::Yes, 5);
    assert_eq!(r.unwrap_err(), ContractError::PollNotInProgress);
}

#[test]
fn end_poll_unlocks_only_its_own_locks() {
    // one account backs two polls with the same capital; ending the first
    // poll releases its lock and leaves the second poll's lock untouched
    let mut state = fresh();
    stake(&mut state, "creator", 100);
    create_poll(&mut state, "creator", None, "first poll", None, Some(10)).unwrap();
    vote(&mut state, "creator", 1, VoteChoice::Yes, 80).unwrap();
    create_poll(&mut state, "creator", None, "second poll", None, Some(10)).unwrap();
    vote(&mut state, "creator", 2, VoteChoice::Yes, 50).unwrap();
    // both locks outstanding: the largest (80) gates withdrawal
    let r = execute(
        &mut state,
        &env(0, 0),
        &info("creator", vec![]),
        ExecuteMsg::WithdrawVotingTokens { amount: Some(30) },
    );
    assert_eq!(r.unwrap_err(), ContractError::ExcessiveWithdraw { max_amount: 20 });
    execute(&mut state, &env(10, 130), &info("creator", vec![]), ExecuteMsg::EndPoll { poll_id: 1 })
        .unwrap();
    // the lock for the first poll is gone; the second one still holds
    let r = execute(
        &mut state,
        &env(0, 0),
        &info("creator", vec![]),
        ExecuteMsg::WithdrawVotingTokens { amount: Some(60) },
    );
    assert_eq!(r.unwrap_err(), ContractError::ExcessiveWithdraw { max_amount: 50 });
    let r = execute(
        &mut state,
        &env(0, 0),
        &info("creator", vec![]),
        ExecuteMsg::WithdrawVotingTokens { amount: Some(50) },
    );
    assert!(r.is_ok());
    assert_eq!(balance_of(&state, "creator"), 50);
}

#[test]
fn zero_weight_votes_never_pass() {
    // a tally of zero rejects for quorum even when voters showed up
    let mut state = fresh();
    create_poll(&mut state, "creator", None, "test poll", None, Some(10)).unwrap();
    vote(&mut state, "alice", 1, VoteChoice::Yes, 0).unwrap();
    let r = execute(&mut state, &env(10, 50), &info("creator", vec![]), ExecuteMsg::EndPoll { poll_id: 1 })
        .unwrap();
    match r {
        ExecuteResponse::PollEnded { passed, rejected_reason, .. } => {
            assert!(!passed);
            assert_eq!(rejected_reason, Some(RejectionReason::QuorumNotReached));
        }
        other => panic!("expected a poll end report, got {:?}", other),
    }
}

#[test]
fn description_validation_bounds() {
    assert!(validate_description("abc").is_ok());
    assert!(validate_description(&"x".repeat(64)).is_ok());
    assert_eq!(
        validate_description("ab").unwrap_err(),
        ContractError::DescriptionTooShort { min_desc_length: 3 }
    );
    assert_eq!(
        validate_description(&"x".repeat(65)).unwrap_err(),
        ContractError::DescriptionTooLong { max_desc_length: 64 }
    );
}

#[test]
fn quorum_percentage_validation_bounds() {
    assert!(validate_quorum_percentage(None).is_ok());
    assert!(validate_quorum_percentage(Some(0)).is_ok());
    assert!(validate_quorum_percentage(Some(100)).is_ok());
    assert_eq!(
        validate_quorum_percentage(Some(101)).unwrap_err(),
        ContractError::PollQuorumPercentageMismatch { quorum_percentage: 101 }
    );
}

#[test]
fn first_coin_in_denom_is_credited() {
    // a zero coin in the right denomination ahead of a sufficient one is
    // the one credited: validation scans all coins, crediting takes the
    // first denomination match
    let mut state = fresh();
    let funds = vec![
        Coin { denom: DENOM.to_string(), amount: 0 },
        Coin { denom: DENOM.to_string(), amount: 5 },
    ];
    let r = execute(&mut state, &env(0, 0), &info("alice", funds), ExecuteMsg::StakeVotingTokens);
    assert!(r.is_ok());
    assert_eq!(balance_of(&state, "alice"), 0);
    assert_eq!(staked_total(&state), 0);
}

#[test]
fn end_poll_on_missing_poll_fails() {
    let mut state = fresh();
    let r = execute(&mut state, &env(10, 0), &info("creator", vec![]), ExecuteMsg::EndPoll { poll_id: 1 });
    assert_eq!(r.unwrap_err(), ContractError::PollNotExist);
    let r = execute(&mut state, &env(10, 0), &info("creator", vec![]), ExecuteMsg::EndPoll { poll_id: 0 });
    assert_eq!(r.unwrap_err(), ContractError::PollNotExist);
}

#[test]
fn query_missing_poll_fails() {
    let state = fresh();
    assert_eq!(
        query(&state, QueryMsg::Poll { poll_id: 0 }).unwrap_err(),
        ContractError::PollNotExist
    );
    assert_eq!(
        query(&state, QueryMsg::Poll { poll_id: 7 }).unwrap_err(),
        ContractError::PollNotExist
    );
}

#[test]
fn stake_ignores_other_denominations() {
    // the minimum-coin check alone governs: an unrelated coin alongside
    // the staking denomination neither blocks nor credits anything
    let mut state = fresh();
    let funds = vec![
        Coin { denom: "other_token".to_string(), amount: 7 },
        Coin { denom: DENOM.to_string(), amount: 10 },
    ];
    let r = execute(&mut state, &env(0, 0), &info("alice", funds), ExecuteMsg::StakeVotingTokens);
    assert!(r.is_ok());
    assert_eq!(balance_of(&state, "alice"), 10);
    assert_eq!(staked_total(&state), 10);
}

#[test]
fn query_poll_reports_its_record() {
    let mut state = fresh();
    create_poll(&mut state, "creator", Some(40), "test poll", Some(2), Some(10)).unwrap();
    match query(&state, QueryMsg::Poll { poll_id: 1 }) {
        Ok(QueryResponse::Poll(p)) => {
            assert_eq!(p.creator, "creator");
            assert_eq!(p.status, PollStatus::InProgress);
            assert_eq!(p.quorum_percentage, Some(40));
            assert_eq!(p.end_height, Some(10));
            assert_eq!(p.start_height, Some(2));
            assert_eq!(p.description, "test poll");
        }
        other => panic!("unexpected poll reply: {:?}", other),
    }
}

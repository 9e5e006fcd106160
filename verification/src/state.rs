use vstd::prelude::*;

verus! {

/// A ballot. The wire format this contract is hosted behind carries the
/// vote as a free-form string that is compared against the literal "yes",
/// every other string counting as a negative vote; that two-way split is
/// captured here as a closed choice.
#[derive(Clone, Copy, PartialEq, Eq, Structural, Debug)]
pub enum VoteChoice {
    Yes,
    No,
}

/// Lifecycle of a poll: it starts in progress and settles exactly once.
#[derive(Clone, Copy, PartialEq, Eq, Structural, Debug)]
pub enum PollStatus {
    InProgress,
    Passed,
    Rejected,
}

/// One cast vote, stored positionally alongside the voter's address in the
/// owning poll.
#[derive(Clone, Copy, PartialEq, Eq, Structural, Debug)]
pub struct Voter {
    pub vote: VoteChoice,
    pub weight: u128,
}

/// The singleton global configuration.
#[derive(Clone, Debug)]
pub struct State {
    pub denom: String,
    pub owner: String,
    pub poll_count: u64,
    pub staked_tokens: u128,
}

/// Per-account custody record: the spendable balance, one lock per open poll
/// the account voted on, and the history of polls it participated in.
#[derive(Clone, Debug)]
pub struct TokenManager {
    pub token_balance: u128,
    pub locked_tokens: Vec<(u64, u128)>,
    pub participated_polls: Vec<u64>,
}

impl Default for TokenManager {
    /// A fresh custody record: zero balance, no locks, no history.
    fn default() -> (r: TokenManager)
        ensures
            r.token_balance == 0,
            r.locked_tokens@ == Seq::<(u64, u128)>::empty(),
            r.participated_polls@ == Seq::<u64>::empty(),
    {
        TokenManager { token_balance: 0, locked_tokens: Vec::new(), participated_polls: Vec::new() }
    }
}

/// A governance poll. Immutable once created, except that votes accumulate
/// in `voters`/`voter_info` while in progress and `status` settles once.
#[derive(Clone, Debug)]
pub struct Poll {
    pub creator: String,
    pub status: PollStatus,
    pub quorum_percentage: Option<u8>,
    pub yes_votes: u128,
    pub no_votes: u128,
    pub voters: Vec<String>,
    pub voter_info: Vec<Voter>,
    pub end_height: u64,
    pub start_height: Option<u64>,
    pub description: String,
}

/// The whole contract state: the global configuration, the custody ledger
/// keyed by account address, and the polls keyed by their id. Poll `i`
/// (ids start at 1) lives at index `i - 1`; ids are assigned densely.
#[derive(Clone, Debug)]
pub struct ContractState {
    pub config: State,
    pub bank: Vec<(String, TokenManager)>,
    pub polls: Vec<Poll>,
}

/// First custody record stored under `addr`, if any. The ledger keeps at
/// most one record per address, so under well-formedness this is the record.
pub open spec fn lookup(bank: Seq<(String, TokenManager)>, addr: Seq<char>) -> Option<TokenManager>
    decreases bank.len(),
{
    if bank.len() == 0 {
        None
    } else if bank[0].0@ == addr {
        Some(bank[0].1)
    } else {
        lookup(bank.drop_first(), addr)
    }
}

/// Sum of all account balances held in custody.
pub open spec fn sum_balances(bank: Seq<(String, TokenManager)>) -> int
    decreases bank.len(),
{
    if bank.len() == 0 {
        0
    } else {
        sum_balances(bank.drop_last()) + bank.last().1.token_balance
    }
}

/// The largest single-poll lock of a record, zero if it holds none. This is
/// deliberately a maximum and not a sum: one account's capital may back
/// several concurrent polls, and only the largest commitment gates
/// withdrawal.
pub open spec fn max_locked(locks: Seq<(u64, u128)>) -> u128
    decreases locks.len(),
{
    if locks.len() == 0 {
        0u128
    } else {
        let rest = max_locked(locks.drop_last());
        if locks.last().1 > rest {
            locks.last().1
        } else {
            rest
        }
    }
}

/// Total weight of affirmative votes.
pub open spec fn tally_yes(info: Seq<Voter>) -> int
    decreases info.len(),
{
    if info.len() == 0 {
        0
    } else {
        tally_yes(info.drop_last()) + (if info.last().vote == VoteChoice::Yes {
            info.last().weight as int
        } else {
            0
        })
    }
}

/// Total weight of negative votes.
pub open spec fn tally_no(info: Seq<Voter>) -> int
    decreases info.len(),
{
    if info.len() == 0 {
        0
    } else {
        tally_no(info.drop_last()) + (if info.last().vote == VoteChoice::No {
            info.last().weight as int
        } else {
            0
        })
    }
}

/// Length of a string in bytes of its UTF-8 encoding — the unit the
/// description bounds are measured in.
pub open spec fn byte_len(s: Seq<char>) -> nat {
    vstd::utf8::encode_utf8(s).len()
}

/// A lock list with every entry for `poll_id` removed, other entries kept
/// in order.
pub open spec fn remove_lock(locks: Seq<(u64, u128)>, poll_id: u64) -> Seq<(u64, u128)> {
    locks.filter(|e: (u64, u128)| e.0 != poll_id)
}

/// A status may only move away from `InProgress`, and only once.
pub open spec fn status_transition_ok(before: PollStatus, after: PollStatus) -> bool {
    after == before || before == PollStatus::InProgress
}

impl Poll {
    /// Whether `addr` has already cast a vote on this poll.
    pub open spec fn spec_has_voted(self, addr: Seq<char>) -> bool {
        exists|v: int| 0 <= v < self.voters@.len() && self.voters@[v]@ == addr
    }

    /// Structural invariant of a poll: ballots pair up with voters, no
    /// address votes twice, the quorum percentage is a percentage, and the
    /// description length was validated at creation.
    pub open spec fn wf(self) -> bool {
        &&& self.voters@.len() == self.voter_info@.len()
        &&& (forall|i: int, j: int|
            0 <= i < j < self.voters@.len() ==> self.voters@[i]@ != self.voters@[j]@)
        &&& (self.quorum_percentage matches Some(q) ==> q <= 100)
        &&& 3 <= byte_len(self.description@) <= 64
    }
}

impl ContractState {
    /// The custody record of `addr`, if the ledger holds one.
    pub open spec fn spec_account(self, addr: Seq<char>) -> Option<TokenManager> {
        lookup(self.bank@, addr)
    }

    /// Whether the ledger holds a record for `addr`. A record with zero
    /// balance is present, not absent.
    pub open spec fn has_account(self, addr: Seq<char>) -> bool {
        lookup(self.bank@, addr) is Some
    }

    /// Spendable balance of `addr`; an absent record counts as zero.
    pub open spec fn spec_balance(self, addr: Seq<char>) -> int {
        match lookup(self.bank@, addr) {
            Some(m) => m.token_balance as int,
            None => 0,
        }
    }

    /// Poll locks of `addr`; an absent record holds none.
    pub open spec fn spec_locks(self, addr: Seq<char>) -> Seq<(u64, u128)> {
        match lookup(self.bank@, addr) {
            Some(m) => m.locked_tokens@,
            None => Seq::empty(),
        }
    }

    /// Participation history of `addr`; an absent record holds none.
    pub open spec fn spec_participated(self, addr: Seq<char>) -> Seq<u64> {
        match lookup(self.bank@, addr) {
            Some(m) => m.participated_polls@,
            None => Seq::empty(),
        }
    }

    /// Whether a poll with this id exists.
    pub open spec fn has_poll(self, poll_id: u64) -> bool {
        1 <= poll_id <= self.polls@.len()
    }

    /// The poll stored under `poll_id` (ids start at 1).
    pub open spec fn spec_poll(self, poll_id: u64) -> Poll {
        self.polls@[poll_id - 1]
    }

    /// The locks of the record at ledger index `k` are sound: each lock
    /// names an existing poll that the account has voted on, and no poll
    /// is named twice — one vote, one lock. The second point rests on the
    /// first: an account votes at most once per poll, so it locks at most
    /// once per poll.
    pub open spec fn locks_wf(self, k: int) -> bool {
        let addr = self.bank@[k].0@;
        let locks = self.bank@[k].1.locked_tokens@;
        &&& (forall|l1: int, l2: int|
            0 <= l1 < l2 < locks.len() ==> locks[l1].0 != locks[l2].0)
        &&& (forall|l: int|
            0 <= l < locks.len() ==> 1 <= (#[trigger] locks[l]).0 <= self.config.poll_count
                && self.polls@[locks[l].0 - 1].spec_has_voted(addr))
    }

    /// Well-formedness of the whole state:
    /// - poll ids are dense: the counter equals the number of polls;
    /// - the ledger holds at most one record per address;
    /// - every poll is well-formed, and each of its voters has a record;
    /// - every lock names an existing poll the account voted on, at most
    ///   one lock per poll;
    /// - the bookkeeping pool total equals the sum of all balances;
    /// - no balance sits below the account's largest lock.
    pub open spec fn wf(self) -> bool {
        &&& self.polls@.len() == self.config.poll_count as int
        &&& (forall|i: int, j: int|
            0 <= i < j < self.bank@.len() ==> self.bank@[i].0@ != self.bank@[j].0@)
        &&& (forall|i: int| 0 <= i < self.polls@.len() ==> (#[trigger] self.polls@[i]).wf())
        &&& (forall|i: int, v: int|
            0 <= i < self.polls@.len() && 0 <= v < self.polls@[i].voters@.len()
                ==> lookup(self.bank@, #[trigger] self.polls@[i].voters@[v]@) is Some)
        &&& (forall|k: int| 0 <= k < self.bank@.len() ==> #[trigger] self.locks_wf(k))
        &&& sum_balances(self.bank@) == self.config.staked_tokens as int
        &&& (forall|i: int|
            0 <= i < self.bank@.len()
                ==> max_locked(#[trigger] self.bank@[i].1.locked_tokens@)
                    <= self.bank@[i].1.token_balance)
    }
}

} // verus!

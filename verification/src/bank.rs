use vstd::prelude::*;
use crate::state::{lookup, max_locked, remove_lock, sum_balances, TokenManager};

verus! {

/// Index of the first ledger entry keyed by `addr`, if any.
pub(crate) fn find_account(bank: &Vec<(String, TokenManager)>, addr: &String) -> (r: Option<
    usize,
>)
    ensures
        match r {
            Some(i) => 0 <= i < bank@.len() && bank@[i as int].0@ == addr@ && (forall|j: int|
                0 <= j < i ==> bank@[j].0@ != addr@),
            None => forall|j: int| 0 <= j < bank@.len() ==> bank@[j].0@ != addr@,
        },
{
    let mut i: usize = 0;
    while i < bank.len()
        invariant
            i <= bank@.len(),
            forall|j: int| 0 <= j < i ==> bank@[j].0@ != addr@,
        decreases bank@.len() - i,
    {
        if bank[i].0 == *addr {
            return Some(i);
        }
        i = i + 1;
    }
    None
}

/// The first match found by a scan is the record `lookup` denotes.
pub proof fn lemma_lookup_at_index(bank: Seq<(String, TokenManager)>, i: int)
    requires
        0 <= i < bank.len(),
        forall|j: int| 0 <= j < i ==> bank[j].0@ != bank[i].0@,
    ensures
        lookup(bank, bank[i].0@) == Some(bank[i].1),
    decreases i,
{
    if i > 0 {
        lemma_lookup_at_index(bank.drop_first(), i - 1);
    }
}

/// A scan that matches nothing means `lookup` denotes nothing.
pub proof fn lemma_lookup_none(bank: Seq<(String, TokenManager)>, addr: Seq<char>)
    requires
        forall|j: int| 0 <= j < bank.len() ==> bank[j].0@ != addr,
    ensures
        lookup(bank, addr) is None,
    decreases bank.len(),
{
    if bank.len() > 0 {
        lemma_lookup_none(bank.drop_first(), addr);
    }
}

/// Replacing one entry without changing its key leaves every other address's
/// record as it was.
pub proof fn lemma_lookup_update_other(
    bank: Seq<(String, TokenManager)>,
    i: int,
    e: (String, TokenManager),
    addr: Seq<char>,
)
    requires
        0 <= i < bank.len(),
        e.0@ == bank[i].0@,
        addr != e.0@,
    ensures
        lookup(bank.update(i, e), addr) == lookup(bank, addr),
    decreases bank.len(),
{
    if i == 0 {
        assert(bank.update(i, e).drop_first() =~= bank.drop_first());
    } else {
        assert(bank.update(i, e).drop_first() =~= bank.drop_first().update(i - 1, e));
        lemma_lookup_update_other(bank.drop_first(), i - 1, e, addr);
    }
}

/// Appending a record changes only an address not yet present.
pub proof fn lemma_lookup_push(
    bank: Seq<(String, TokenManager)>,
    e: (String, TokenManager),
    addr: Seq<char>,
)
    ensures
        lookup(bank.push(e), addr) == (if lookup(bank, addr) is Some {
            lookup(bank, addr)
        } else if addr == e.0@ {
            Some(e.1)
        } else {
            None
        }),
    decreases bank.len(),
{
    if bank.len() == 0 {
        assert(bank.push(e)[0] == e);
        assert(bank.push(e).drop_first() =~= Seq::<(String, TokenManager)>::empty());
        assert(lookup(Seq::<(String, TokenManager)>::empty(), addr) is None);
    } else {
        assert(bank.push(e)[0] == bank[0]);
        assert(bank.push(e).drop_first() =~= bank.drop_first().push(e));
        lemma_lookup_push(bank.drop_first(), e, addr);
    }
}

/// How the pool total moves when one entry is replaced.
pub proof fn lemma_sum_update(
    bank: Seq<(String, TokenManager)>,
    i: int,
    e: (String, TokenManager),
)
    requires
        0 <= i < bank.len(),
    ensures
        sum_balances(bank.update(i, e)) == sum_balances(bank) - bank[i].1.token_balance
            + e.1.token_balance,
    decreases bank.len(),
{
    if i == bank.len() - 1 {
        assert(bank.update(i, e).drop_last() =~= bank.drop_last());
    } else {
        assert(bank.update(i, e).drop_last() =~= bank.drop_last().update(i, e));
        lemma_sum_update(bank.drop_last(), i, e);
    }
}

/// How the pool total moves when a record is appended.
pub proof fn lemma_sum_push(bank: Seq<(String, TokenManager)>, e: (String, TokenManager))
    ensures
        sum_balances(bank.push(e)) == sum_balances(bank) + e.1.token_balance,
{
    assert(bank.push(e).drop_last() =~= bank);
}

/// The pool total depends on the balances alone.
pub proof fn lemma_sum_pointwise_eq(
    b1: Seq<(String, TokenManager)>,
    b2: Seq<(String, TokenManager)>,
)
    requires
        b1.len() == b2.len(),
        forall|k: int| 0 <= k < b1.len() ==> (#[trigger] b1[k]).1.token_balance
            == b2[k].1.token_balance,
    ensures
        sum_balances(b1) == sum_balances(b2),
    decreases b1.len(),
{
    if b1.len() > 0 {
        lemma_sum_pointwise_eq(b1.drop_last(), b2.drop_last());
    }
}

/// The pool total never goes negative.
pub proof fn lemma_sum_nonneg(bank: Seq<(String, TokenManager)>)
    ensures
        sum_balances(bank) >= 0,
    decreases bank.len(),
{
    if bank.len() > 0 {
        lemma_sum_nonneg(bank.drop_last());
    }
}

/// No single balance exceeds the pool total.
pub proof fn lemma_balance_le_sum(bank: Seq<(String, TokenManager)>, i: int)
    requires
        0 <= i < bank.len(),
    ensures
        bank[i].1.token_balance <= sum_balances(bank),
    decreases bank.len(),
{
    if i == bank.len() - 1 {
        lemma_sum_nonneg(bank.drop_last());
    } else {
        lemma_balance_le_sum(bank.drop_last(), i);
    }
}

/// Growing a lock list raises its maximum to at most the new amount.
pub proof fn lemma_max_locked_push(locks: Seq<(u64, u128)>, e: (u64, u128))
    ensures
        max_locked(locks.push(e)) == (if e.1 > max_locked(locks) {
            e.1
        } else {
            max_locked(locks)
        }),
{
    assert(locks.push(e).drop_last() =~= locks);
}

/// Removing a poll's lock can only lower the maximum.
pub proof fn lemma_max_locked_remove(locks: Seq<(u64, u128)>, poll_id: u64)
    ensures
        max_locked(remove_lock(locks, poll_id)) <= max_locked(locks),
    decreases locks.len(),
{
    reveal(Seq::filter);
    if locks.len() > 0 {
        lemma_max_locked_remove(locks.drop_last(), poll_id);
        if locks.last().0 != poll_id {
            lemma_max_locked_push(remove_lock(locks.drop_last(), poll_id), locks.last());
        }
    }
}

/// Every lock that survives a removal stood in the original list, and
/// pairwise-distinct poll ids stay pairwise distinct.
pub proof fn lemma_remove_lock_wf(locks: Seq<(u64, u128)>, poll_id: u64)
    ensures
        forall|j: int|
            0 <= j < remove_lock(locks, poll_id).len() ==> locks.contains(
                #[trigger] remove_lock(locks, poll_id)[j],
            ),
        (forall|l1: int, l2: int| 0 <= l1 < l2 < locks.len() ==> locks[l1].0 != locks[l2].0)
            ==> (forall|l1: int, l2: int|
            0 <= l1 < l2 < remove_lock(locks, poll_id).len() ==> remove_lock(
                locks,
                poll_id,
            )[l1].0 != remove_lock(locks, poll_id)[l2].0),
    decreases locks.len(),
{
    reveal(Seq::filter);
    if locks.len() > 0 {
        lemma_remove_lock_wf(locks.drop_last(), poll_id);
        let sub = remove_lock(locks.drop_last(), poll_id);
        assert forall|j: int| 0 <= j < sub.len() implies locks.contains(#[trigger] sub[j]) by {
            assert(locks.drop_last().contains(sub[j]));
            let w = choose|w: int| 0 <= w < locks.drop_last().len() && locks.drop_last()[w]
                == sub[j];
            assert(locks[w] == sub[j]);
        }
        if locks.last().0 != poll_id {
            assert(remove_lock(locks, poll_id) == sub.push(locks.last()));
            assert(locks[locks.len() - 1] == locks.last());
            assert(locks.contains(locks.last()));
            if forall|l1: int, l2: int|
                0 <= l1 < l2 < locks.len() ==> locks[l1].0 != locks[l2].0 {
                assert forall|l1: int, l2: int|
                    0 <= l1 < l2 < remove_lock(locks, poll_id).len() implies remove_lock(
                    locks,
                    poll_id,
                )[l1].0 != remove_lock(locks, poll_id)[l2].0 by {
                    if l2 == sub.len() {
                        // the appended last lock differs from every kept one,
                        // which all stand before it in the original list
                        assert(locks.drop_last().contains(sub[l1]));
                        let w = choose|w: int|
                            0 <= w < locks.drop_last().len() && locks.drop_last()[w] == sub[l1];
                        assert(locks[w].0 != locks[locks.len() - 1].0);
                    }
                }
            }
        }
    }
}

/// A record exists exactly when some entry carries its key.
pub proof fn lemma_lookup_some_iff_key(bank: Seq<(String, TokenManager)>, addr: Seq<char>)
    ensures
        lookup(bank, addr) is Some <==> exists|k: int|
            0 <= k < bank.len() && (#[trigger] bank[k]).0@ == addr,
    decreases bank.len(),
{
    if bank.len() > 0 {
        lemma_lookup_some_iff_key(bank.drop_first(), addr);
        if lookup(bank, addr) is Some {
            if bank[0].0@ == addr {
                assert(bank[0].0@ == addr);
            } else {
                let k = choose|k: int|
                    0 <= k < bank.drop_first().len() && (#[trigger] bank.drop_first()[k]).0@
                        == addr;
                assert(bank[k + 1].0@ == addr);
            }
        }
        if exists|k: int| 0 <= k < bank.len() && (#[trigger] bank[k]).0@ == addr {
            let k = choose|k: int| 0 <= k < bank.len() && (#[trigger] bank[k]).0@ == addr;
            if k > 0 {
                assert(bank.drop_first()[k - 1].0@ == addr);
            }
        }
    }
}

/// Largest single-poll lock of one record; zero when it holds none.
pub(crate) fn locked_amount(token_manager: &TokenManager) -> (r: u128)
    ensures
        r == max_locked(token_manager.locked_tokens@),
{
    let locks = &token_manager.locked_tokens;
    let ghost all = locks@;
    let mut best: u128 = 0;
    let mut i: usize = 0;
    while i < locks.len()
        invariant
            i <= all.len(),
            locks@ == all,
            best == max_locked(all.subrange(0, i as int)),
        decreases all.len() - i,
    {
        proof {
            assert(all.subrange(0, (i + 1) as int).drop_last() =~= all.subrange(0, i as int));
        }
        if locks[i].1 > best {
            best = locks[i].1;
        }
        i = i + 1;
    }
    proof {
        assert(all.subrange(0, all.len() as int) =~= all);
    }
    best
}

/// Removes the lock `voter` holds for `poll_id`, keeping every other lock in
/// order; a no-op on the list if no such lock exists. Balance and
/// participation history are untouched.
pub(crate) fn unlock_tokens(
    bank: &mut Vec<(String, TokenManager)>,
    voter: &String,
    poll_id: u64,
) -> (r: Result<(), crate::error::ContractError>)
    requires
        lookup(old(bank)@, voter@) is Some,
        forall|a: int, b: int|
            0 <= a < b < old(bank)@.len() ==> old(bank)@[a].0@ != old(bank)@[b].0@,
    ensures
        r is Ok,
        final(bank)@.len() == old(bank)@.len(),
        forall|k: int|
            0 <= k < old(bank)@.len() ==> (#[trigger] final(bank)@[k]).0@ == old(bank)@[k].0@
                && final(bank)@[k].1.token_balance == old(bank)@[k].1.token_balance
                && final(bank)@[k].1.participated_polls@ == old(bank)@[k].1.participated_polls@,
        forall|k: int|
            0 <= k < old(bank)@.len() && old(bank)@[k].0@ == voter@
                ==> (#[trigger] final(bank)@[k]).1.locked_tokens@ == remove_lock(
                old(bank)@[k].1.locked_tokens@,
                poll_id,
            ),
        forall|k: int|
            0 <= k < old(bank)@.len() && old(bank)@[k].0@ != voter@
                ==> (#[trigger] final(bank)@[k]).1.locked_tokens@ == old(
                bank,
            )@[k].1.locked_tokens@,
{
    let found = find_account(bank, voter);
    let i: usize = match found {
        Some(i) => i,
        None => {
            proof {
                lemma_lookup_none(bank@, voter@);
            }
            // unreachable: the caller guarantees the record exists
            return Ok(());
        },
    };
    let ghost locks0 = bank@[i as int].1.locked_tokens@;
    let n: usize = bank[i].1.locked_tokens.len();
    let mut kept: Vec<(u64, u128)> = Vec::new();
    let mut j: usize = 0;
    while j < n
        invariant
            j <= n,
            n == locks0.len(),
            0 <= i < bank@.len(),
            bank@[i as int].1.locked_tokens@ == locks0,
            kept@ == remove_lock(locks0.subrange(0, j as int), poll_id),
        decreases n - j,
    {
        let entry = bank[i].1.locked_tokens[j];
        if entry.0 != poll_id {
            kept.push(entry);
        }
        proof {
            reveal(Seq::filter);
            let s1 = locks0.subrange(0, (j + 1) as int);
            assert(s1.drop_last() =~= locks0.subrange(0, j as int));
            assert(s1.last() == locks0[j as int]);
            assert(entry == locks0[j as int]);
            assert(kept@ == remove_lock(s1, poll_id));
        }
        j = j + 1;
    }
    proof {
        reveal(Seq::filter);
        assert(locks0.subrange(0, 0) =~= Seq::<(u64, u128)>::empty());
        assert(locks0.subrange(0, locks0.len() as int) =~= locks0);
    }
    bank[i].1.locked_tokens = kept;
    Ok(())
}

} // verus!

use vstd::prelude::*;
use crate::error::ContractError;
use crate::msg::Coin;

verus! {

/// Whether `sent` carries a coin of `denom` whose amount reaches `required`.
pub open spec fn has_sufficient_coin(sent: Seq<Coin>, denom: Seq<char>, required: u128) -> bool {
    exists|i: int| 0 <= i < sent.len() && sent[i].denom@ == denom && sent[i].amount >= required
}

/// Amount of the first coin sent in `denom`, if one was sent at all. The
/// first matching coin is the one credited, even when a later coin of the
/// same denomination carries more.
pub open spec fn first_coin_amount(sent: Seq<Coin>, denom: Seq<char>) -> Option<u128>
    decreases sent.len(),
{
    if sent.len() == 0 {
        None
    } else if sent[0].denom@ == denom {
        Some(sent[0].amount)
    } else {
        first_coin_amount(sent.drop_first(), denom)
    }
}

/// [`first_coin_amount`] as a plain amount, counting an absent coin as zero.
pub open spec fn spec_sent_amount(sent: Seq<Coin>, denom: Seq<char>) -> u128 {
    match first_coin_amount(sent, denom) {
        Some(a) => a,
        None => 0u128,
    }
}

/// The first denomination match found by a forward scan is the coin
/// [`first_coin_amount`] denotes.
pub proof fn lemma_first_coin_at_index(sent: Seq<Coin>, i: int)
    requires
        0 <= i < sent.len(),
        forall|j: int| 0 <= j < i ==> sent[j].denom@ != sent[i].denom@,
    ensures
        first_coin_amount(sent, sent[i].denom@) == Some(sent[i].amount),
    decreases i,
{
    if i > 0 {
        lemma_first_coin_at_index(sent.drop_first(), i - 1);
    }
}

/// Checks that the attached funds contain a coin matching the required
/// denomination with at least the required amount. A required amount of
/// zero (or no requirement at all) accepts anything.
#[verifier::loop_isolation(false)]
pub fn validate_sent_sufficient_coin(sent: &Vec<Coin>, required: Option<Coin>) -> (r: Result<
    (),
    ContractError,
>)
    ensures
        (match required {
            Some(c) => (c.amount > 0 ==> (r is Ok <==> has_sufficient_coin(
                sent@,
                c.denom@,
                c.amount,
            ))) && (c.amount == 0 ==> r is Ok),
            None => r is Ok,
        }),
        r is Err ==> r == Err::<(), ContractError>(ContractError::InsufficientFundsSent),
{
    if let Some(required_coin) = required {
        if required_coin.amount > 0 {
            let mut i: usize = 0;
            while i < sent.len()
                invariant
                    i <= sent@.len(),
                    forall|j: int|
                        0 <= j < i ==> !((#[trigger] sent@[j]).denom@ == required_coin.denom@
                            && sent@[j].amount >= required_coin.amount),
                decreases sent@.len() - i,
            {
                if sent[i].denom == required_coin.denom && sent[i].amount >= required_coin.amount {
                    proof {
                        assert(sent@[i as int].denom@ == required_coin.denom@
                            && sent@[i as int].amount >= required_coin.amount);
                        assert(has_sufficient_coin(sent@, required_coin.denom@, required_coin.amount));
                    }
                    return Ok(());
                }
                i = i + 1;
            }
            return Err(ContractError::InsufficientFundsSent);
        }
    }
    Ok(())
}

} // verus!

//! Casting a weighted vote on an active trial. The funding required is
//! proportional to the weight of the vote.

use vstd::prelude::*;

use crate::error::ContractError;
use crate::models::{
    lemma_choice_weight_le_sum, lemma_sum_choice_weights_update, Choice, Token, Vote,
};
use crate::response::{Coin, Response, TransferMsg};
use crate::state::{
    lemma_svc_push, lemma_svc_update, lemma_vote_entry_le_svc, lemma_vote_index,
    find_vote, vote_index, sum_votes_for_choice, State, VoteEntry,
};
use crate::util::{
    build_cw20_transfer_msg, build_native_send_msg, native_funds_result, validate_cw20_funds,
    validate_native_funds,
};

verus! {

/// The vote's target choice, weight and index are admissible against the
/// trial: it is active, the weight is funded and the index is in range.
pub open spec fn vote_admissible(s: State, choice_index: int, weight: u32) -> bool {
    &&& s.trial.status is Active
    &&& weight >= 1
    &&& 0 <= choice_index < s.trial.choices@.len()
}

/// The payment a vote owes: its weight times the trial's per-unit price.
pub open spec fn vote_payment(s: State, weight: u32) -> int {
    weight * s.trial.price
}

/// Whether the payment handed in with an admissible vote passes validation:
/// for a natively funded trial the attached funds must hold the exact
/// payment in the trial's denomination, for a token-funded trial the
/// payer's reported balance must cover it.
pub open spec fn vote_funds_result(s: State, funds: Seq<Coin>, balance: u128, weight: u32) -> Result<
    (),
    ContractError,
> {
    match s.trial.token {
        Token::Native { denom } => native_funds_result(funds, vote_payment(s, weight), denom@),
        Token::Cw20 { address } => if balance >= vote_payment(s, weight) {
            Ok(())
        } else {
            Err(ContractError::InsufficientFunds)
        },
    }
}

/// The choices after a vote of weight `w` lands on choice `c`: one more
/// tally and `w` more weight there, everything else unchanged.
pub open spec fn vote_cast_choices(choices: Seq<Choice>, c: int, w: u32) -> Seq<Choice> {
    choices.update(
        c,
        Choice {
            text: choices[c].text,
            tally: (choices[c].tally + 1) as u32,
            weight: (choices[c].weight + w) as u32,
        },
    )
}

/// The vote records after a wallet's vote of weight `w` lands on choice
/// `c`: the wallet's record for that choice accumulates the weight, or a
/// fresh record is appended if the wallet had none.
pub open spec fn vote_cast_votes(votes: Seq<VoteEntry>, c: u32, voter: String, w: u32) -> Seq<
    VoteEntry,
> {
    let i = vote_index(votes, c as int, voter@);
    if i == -1 {
        votes.push(VoteEntry { voter, vote: Vote { choice: c, weight: w } })
    } else {
        votes.update(
            i,
            VoteEntry {
                voter: votes[i].voter,
                vote: Vote { choice: c, weight: (votes[i].vote.weight + w) as u32 },
            },
        )
    }
}

/// The transfer instruction a successful vote emits: the payment moves to
/// the contract, from the attached funds for a native trial or out of the
/// payer's token balance for a token-funded one.
pub open spec fn vote_payment_msg(s: State, sender: String, contract_addr: String, w: u32) -> TransferMsg {
    match s.trial.token {
        Token::Native { denom } => TransferMsg::Native {
            to_address: contract_addr,
            denom,
            amount: vote_payment(s, w) as u128,
        },
        Token::Cw20 { address } => TransferMsg::Cw20 {
            owner: sender,
            recipient: contract_addr,
            contract_addr: address,
            amount: vote_payment(s, w) as u128,
        },
    }
}

/// Cast a vote on an active trial.
///
/// `funds` are the coins attached to the call and `cw20_balance` the
/// payer's balance as the token contract reports it; only the one matching
/// the trial's token kind is consulted. On success the choice's tally and
/// weight, the wallet's vote record and the trial's cumulative weight all
/// grow by the vote, and the single emitted instruction transfers the
/// payment to the contract. On any error the store is untouched.
pub fn vote(
    s: &mut State,
    sender: &String,
    contract_addr: &String,
    choice_index: usize,
    weight: u32,
    funds: &Vec<Coin>,
    cw20_balance: u128,
) -> (r: Result<Response, ContractError>)
    requires
        old(s).wf(),
        vote_admissible(*old(s), choice_index as int, weight) ==> old(s).trial.weight + weight
            <= u32::MAX && old(s).trial.price * (old(s).trial.weight + weight) <= u128::MAX,
    ensures
        final(s).wf(),
        r is Err ==> *final(s) == *old(s),
        !(old(s).trial.status is Active) ==> r == Err::<Response, ContractError>(
            ContractError::NotActive,
        ),
        old(s).trial.status is Active && weight < 1 ==> r == Err::<Response, ContractError>(
            ContractError::InvalidWeight,
        ),
        old(s).trial.status is Active && weight >= 1 && choice_index
            >= old(s).trial.choices@.len() ==> r == Err::<Response, ContractError>(
            ContractError::InvalidChoice,
        ),
        vote_admissible(*old(s), choice_index as int, weight) && (vote_funds_result(
            *old(s),
            funds@,
            cw20_balance,
            weight,
        ) matches Err(e)) ==> r == Err::<Response, ContractError>(
            vote_funds_result(*old(s), funds@, cw20_balance, weight).unwrap_err(),
        ),
        vote_admissible(*old(s), choice_index as int, weight) && vote_funds_result(
            *old(s),
            funds@,
            cw20_balance,
            weight,
        ) is Ok ==> {
            &&& r is Ok
            &&& final(s).trial.choices@ == vote_cast_choices(
                old(s).trial.choices@,
                choice_index as int,
                weight,
            )
            &&& final(s).trial.weight == old(s).trial.weight + weight
            &&& final(s).votes@ == vote_cast_votes(
                old(s).votes@,
                choice_index as u32,
                *sender,
                weight,
            )
            &&& final(s).trial.owner == old(s).trial.owner
            &&& final(s).trial.prompt == old(s).trial.prompt
            &&& final(s).trial.verdict == old(s).trial.verdict
            &&& final(s).trial.status == old(s).trial.status
            &&& final(s).trial.token == old(s).trial.token
            &&& final(s).trial.price == old(s).trial.price
            &&& final(s).trial.style == old(s).trial.style
            &&& final(s).trial.winner == old(s).trial.winner
            &&& final(s).jurors == old(s).jurors
            &&& final(s).has_claimed == old(s).has_claimed
            &&& final(s).voters_claim_amount == old(s).voters_claim_amount
            &&& final(s).cancel_reason == old(s).cancel_reason
            &&& r matches Ok(resp) && resp.messages@ =~= seq![
                vote_payment_msg(*old(s), *sender, *contract_addr, weight),
            ] && resp.attributes@.len() == 1 && resp.attributes@[0].key@ == "action"@
                && resp.attributes@[0].value@ == "vote"@
        },
{
    // abort the vote if the trial is closed
    if !s.trial.is_active() {
        return Err(ContractError::NotActive);
    }
    // abort if the weight is 0
    if weight < 1 {
        return Err(ContractError::InvalidWeight);
    }
    // abort if the vote is cast for an invalid choice
    if choice_index >= s.trial.choices.len() {
        return Err(ContractError::InvalidChoice);
    }

    proof {
        let p = old(s).trial.price as int;
        let tw = old(s).trial.weight as int;
        let w = weight as int;
        assert(p * (tw + w) == p * tw + p * w && p * tw >= 0 && w * p == p * w)
            by (nonlinear_arith)
            requires
                p >= 0,
                tw >= 0,
                w >= 0,
        ;
    }
    let payment: u128 = (weight as u128) * s.trial.price;

    // validate the payment before anything is recorded
    match &s.trial.token {
        Token::Native { denom } => {
            match validate_native_funds(funds, payment, denom) {
                Ok(()) => {},
                Err(e) => {
                    return Err(e);
                },
            }
        },
        Token::Cw20 { address } => {
            match validate_cw20_funds(cw20_balance, payment) {
                Ok(()) => {},
                Err(e) => {
                    return Err(e);
                },
            }
        },
    }

    proof {
        lemma_choice_weight_le_sum(s.trial.choices@, choice_index as int);
    }

    // cast the vote: increment the choice's tally and weight
    let tally = s.trial.choices[choice_index].tally;
    let cweight = s.trial.choices[choice_index].weight;
    let text = s.trial.choices[choice_index].text.clone();
    let ghost choices0 = s.trial.choices@;
    s.trial.choices[choice_index] = Choice { text, tally: tally + 1, weight: cweight + weight };
    proof {
        lemma_sum_choice_weights_update(
            choices0,
            choice_index as int,
            s.trial.choices@[choice_index as int],
        );
    }

    // upsert the wallet's voting record for this choice
    let ghost votes0 = s.votes@;
    proof {
        lemma_vote_index(votes0, choice_index as int, sender@);
    }
    match find_vote(&s.votes, choice_index as u32, sender) {
        Some(i) => {
            proof {
                lemma_vote_entry_le_svc(votes0, i as int);
            }
            let prior = s.votes[i].vote.weight;
            let voter = s.votes[i].voter.clone();
            s.votes[i] = VoteEntry {
                voter,
                vote: Vote { choice: choice_index as u32, weight: prior + weight },
            };
            proof {
                let e = s.votes@[i as int];
                assert forall|c: int| true implies sum_votes_for_choice(s.votes@, c)
                    == sum_votes_for_choice(votes0, c) + if c == choice_index as int {
                    weight as int
                } else {
                    0
                } by {
                    lemma_svc_update(votes0, i as int, e, c);
                }
            }
        },
        None => {
            s.votes.push(
                VoteEntry {
                    voter: sender.clone(),
                    vote: Vote { choice: choice_index as u32, weight },
                },
            );
            proof {
                let e = s.votes@.last();
                assert forall|c: int| true implies sum_votes_for_choice(s.votes@, c)
                    == sum_votes_for_choice(votes0, c) + if c == choice_index as int {
                    weight as int
                } else {
                    0
                } by {
                    lemma_svc_push(votes0, e, c);
                }
            }
        },
    }

    // the trial's weight tracks the sum of the choices' weights
    s.trial.weight = s.trial.weight + weight;

    // emit the transfer instruction for the payment
    let msg = match &s.trial.token {
        Token::Native { denom } => build_native_send_msg(contract_addr, denom, payment),
        Token::Cw20 { address } => build_cw20_transfer_msg(sender, contract_addr, address, payment),
    };
    let mut response = Response::new_action("vote");
    response.messages.push(msg);
    Ok(response)
}

} // verus!

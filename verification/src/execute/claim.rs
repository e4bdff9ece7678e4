//! Claim settlement. A wallet can claim under two conditions: the trial was
//! dismissed or the jury hung, in which case the wallet reclaims its full
//! stake; or the trial has a verdict, in which case a wallet that backed the
//! winning choice draws its share of the voters' reward pool. Every claim,
//! refund or prize, is gated through the same write-once claim ledger, so a
//! wallet settles at most once.

use vstd::prelude::*;

use crate::error::ContractError;
use crate::models::Token;
use crate::response::{decimal_of, format_amount, Attribute, Response, TransferMsg};
use crate::state::{
    claimed, find_vote, ledger_contains, lemma_vote_entry_le_svc, lemma_vote_index,
    lemma_voter_weight_take_le, vote_index, voter_weight, State,
};
use crate::util::{build_cw20_transfer_msg, build_native_send_msg};
use vstd::arithmetic::div_mod::{lemma_basic_div, lemma_div_by_self};
use vstd::pervasive::unreached;

verus! {

/// The trial resolved without a verdict, so stakes are refunded.
pub open spec fn refund_mode(s: State) -> bool {
    s.trial.status is Dismissed || s.trial.status is HungJury
}

/// What a successful refund pays out: the wallet's whole committed weight
/// at the trial's per-unit price.
pub open spec fn refund_amount(s: State, sender: Seq<char>) -> int {
    voter_weight(s.votes@, sender) * s.trial.price
}

/// What a successful prize claim pays out: the voters' reward pool times
/// the ratio of the wallet's weight to the winning choice's weight, the
/// ratio taken with truncating integer division. A wallet whose weight is a
/// strict fraction of the winning choice's weight settles to zero.
pub open spec fn prize_amount(s: State, sender: Seq<char>) -> int {
    let ci = s.trial.winner.unwrap() as int;
    let vi = vote_index(s.votes@, ci, sender);
    let w = s.votes@[vi].vote.weight as int;
    let cw = s.trial.choices@[ci].weight as int;
    s.voters_claim_amount.unwrap() * (w / cw)
}

/// The transfer instruction that pays a settlement to the claimant: from
/// the ledger for a natively funded trial, out of the contract's token
/// balance for a token-funded one.
pub open spec fn claim_payout_msg(s: State, recipient: String, contract_addr: String, amount: int) -> TransferMsg {
    match s.trial.token {
        Token::Native { denom } => TransferMsg::Native {
            to_address: recipient,
            denom,
            amount: amount as u128,
        },
        Token::Cw20 { address } => TransferMsg::Cw20 {
            owner: contract_addr,
            recipient,
            contract_addr: address,
            amount: amount as u128,
        },
    }
}

/// A response with no instructions yet and the audit attributes
/// `action = claim`, `type = <kind>` and the decimal `amount`.
fn claim_response(kind: &str, amount: u128) -> (r: Response)
    ensures
        r.messages@.len() == 0,
        r.attributes@.len() == 3,
        r.attributes@[0].key@ == "action"@,
        r.attributes@[0].value@ == "claim"@,
        r.attributes@[1].key@ == "type"@,
        r.attributes@[1].value@ == kind@,
        r.attributes@[2].key@ == "amount"@,
        r.attributes@[2].value@ == decimal_of(amount as nat),
{
    let mut response = Response::new_action("claim");
    response.attributes.push(Attribute { key: "type".to_owned(), value: kind.to_owned() });
    response.attributes.push(
        Attribute { key: "amount".to_owned(), value: format_amount(amount) },
    );
    response
}

/// Withdraw the caller's settlement once the trial resolved.
///
/// In refund mode (dismissed or hung) the wallet's whole stake comes back;
/// with a verdict, a wallet that backed the winner draws its share of the
/// reward pool. Either way the wallet is recorded in the claim ledger first
/// and a repeated claim fails with `HasClaimed`. On any error the store is
/// untouched.
pub fn claim(s: &mut State, sender: &String, contract_addr: &String) -> (r: Result<
    Response,
    ContractError,
>)
    requires
        old(s).wf(),
    ensures
        final(s).wf(),
        r is Err ==> *final(s) == *old(s),
        refund_mode(*old(s)) && voter_weight(old(s).votes@, sender@) == 0 ==> r == Err::<
            Response,
            ContractError,
        >(ContractError::NotAuthorized),
        refund_mode(*old(s)) && voter_weight(old(s).votes@, sender@) > 0 && claimed(
            old(s).has_claimed@,
            sender@,
        ) ==> r == Err::<Response, ContractError>(ContractError::HasClaimed),
        refund_mode(*old(s)) && voter_weight(old(s).votes@, sender@) > 0 && !claimed(
            old(s).has_claimed@,
            sender@,
        ) ==> {
            &&& r is Ok
            &&& final(s).has_claimed@ == old(s).has_claimed@.push(*sender)
            &&& final(s).trial == old(s).trial
            &&& final(s).votes == old(s).votes
            &&& final(s).jurors == old(s).jurors
            &&& final(s).voters_claim_amount == old(s).voters_claim_amount
            &&& final(s).cancel_reason == old(s).cancel_reason
            &&& r matches Ok(resp) && resp.messages@ =~= seq![
                claim_payout_msg(
                    *old(s),
                    *sender,
                    *contract_addr,
                    refund_amount(*old(s), sender@),
                ),
            ] && resp.attributes@.len() == 3 && resp.attributes@[0].key@ == "action"@
                && resp.attributes@[0].value@ == "claim"@ && resp.attributes@[1].key@ == "type"@
                && resp.attributes@[1].value@ == "refund"@ && resp.attributes@[2].key@
                == "amount"@ && resp.attributes@[2].value@ == decimal_of(
                refund_amount(*old(s), sender@) as nat,
            )
        },
        !refund_mode(*old(s)) && (old(s).trial.winner is None || !(old(s).trial.status
            is HasVerdict)) ==> r == Err::<Response, ContractError>(ContractError::NotDecided),
        !refund_mode(*old(s)) && old(s).trial.status is HasVerdict && vote_index(
            old(s).votes@,
            old(s).trial.winner.unwrap() as int,
            sender@,
        ) == -1 ==> r == Err::<Response, ContractError>(ContractError::NotAuthorized),
        !refund_mode(*old(s)) && old(s).trial.status is HasVerdict && vote_index(
            old(s).votes@,
            old(s).trial.winner.unwrap() as int,
            sender@,
        ) != -1 && claimed(old(s).has_claimed@, sender@) ==> r == Err::<Response, ContractError>(
            ContractError::HasClaimed,
        ),
        !refund_mode(*old(s)) && old(s).trial.status is HasVerdict && vote_index(
            old(s).votes@,
            old(s).trial.winner.unwrap() as int,
            sender@,
        ) != -1 && !claimed(old(s).has_claimed@, sender@) ==> {
            &&& r is Ok
            &&& final(s).has_claimed@ == old(s).has_claimed@.push(*sender)
            &&& final(s).trial == old(s).trial
            &&& final(s).votes == old(s).votes
            &&& final(s).jurors == old(s).jurors
            &&& final(s).voters_claim_amount == old(s).voters_claim_amount
            &&& final(s).cancel_reason == old(s).cancel_reason
            &&& r matches Ok(resp) && resp.messages@ =~= seq![
                claim_payout_msg(
                    *old(s),
                    *sender,
                    *contract_addr,
                    prize_amount(*old(s), sender@),
                ),
            ] && resp.attributes@.len() == 3 && resp.attributes@[0].key@ == "action"@
                && resp.attributes@[0].value@ == "claim"@ && resp.attributes@[1].key@ == "type"@
                && resp.attributes@[1].value@ == "reward"@ && resp.attributes@[2].key@
                == "amount"@ && resp.attributes@[2].value@ == decimal_of(
                prize_amount(*old(s), sender@) as nat,
            )
        },
{
    // if the trial was canceled or hung, the voter reclaims their stake
    if s.trial.has_been_canceled() || s.trial.has_hung_jury() {
        proof {
            old(s).lemma_voter_weight_bound(sender@);
        }
        // sum the caller's weight across all their vote records
        let mut voter_w: u32 = 0;
        let mut i: usize = 0;
        while i < s.votes.len()
            invariant
                *s == *old(s),
                old(s).wf(),
                i <= s.votes@.len(),
                voter_w == voter_weight(s.votes@.take(i as int), sender@),
                voter_weight(s.votes@, sender@) <= s.trial.weight,
            decreases s.votes@.len() - i,
        {
            proof {
                lemma_voter_weight_take_le(s.votes@, sender@, i + 1);
                assert(s.votes@.take(i + 1).drop_last() =~= s.votes@.take(i as int));
                assert(s.votes@.take(i + 1).last() == s.votes@[i as int]);
            }
            if s.votes[i].voter == *sender {
                voter_w = voter_w + s.votes[i].vote.weight;
            }
            i = i + 1;
        }
        proof {
            assert(s.votes@.take(s.votes@.len() as int) =~= s.votes@);
        }
        if voter_w > 0 {
            // the ledger gates refunds exactly as it gates prizes: a
            // second refund claim is rejected rather than paid again
            if ledger_contains(&s.has_claimed, sender) {
                return Err(ContractError::HasClaimed);
            }
            let ghost ledger0 = s.has_claimed@;
            s.has_claimed.push(sender.clone());
            proof {
                assert forall|a: int, b: int|
                    0 <= a < b < s.has_claimed@.len() implies (
                #[trigger] s.has_claimed@[a])@ != (#[trigger] s.has_claimed@[b])@ by {
                    if b == s.has_claimed@.len() - 1 {
                        assert(ledger0[a]@ != sender@);
                    }
                }
            }
            proof {
                let vw = voter_w as int;
                let tw = old(s).trial.weight as int;
                let p = old(s).trial.price as int;
                assert(vw * p <= tw * p && vw * p == p * vw && tw * p == p * tw) by (nonlinear_arith)
                    requires
                        0 <= vw <= tw,
                        p >= 0,
                ;
            }
            let amount: u128 = (voter_w as u128) * s.trial.price;
            let msg = match &s.trial.token {
                Token::Native { denom } => build_native_send_msg(sender, denom, amount),
                Token::Cw20 { address } => build_cw20_transfer_msg(
                    contract_addr,
                    sender,
                    address,
                    amount,
                ),
            };
            let mut response = claim_response("refund", amount);
            response.messages.push(msg);
            Ok(response)
        } else {
            // the tx sender didn't cast any votes
            Err(ContractError::NotAuthorized)
        }
    } else {
        match s.trial.winner {
            Some(winner_index) => {
                // even with a winner recorded, the trial's status decides
                if !s.trial.has_verdict() {
                    return Err(ContractError::NotDecided);
                }
                let ci = winner_index as usize;
                if ci >= s.trial.choices.len() {
                    // unreachable in a well-formed store: the winner always
                    // indexes a choice
                    return Err(ContractError::InvalidChoice);
                }
                proof {
                    lemma_vote_index(s.votes@, ci as int, sender@);
                }
                match find_vote(&s.votes, winner_index, sender) {
                    Some(vi) => {
                        // abort if the voter has already claimed
                        if ledger_contains(&s.has_claimed, sender) {
                            return Err(ContractError::HasClaimed);
                        }
                        // persist the fact that the wallet has now claimed
                        let ghost ledger0 = s.has_claimed@;
                        s.has_claimed.push(sender.clone());
                        proof {
                            assert forall|a: int, b: int|
                                0 <= a < b < s.has_claimed@.len() implies (
                            #[trigger] s.has_claimed@[a])@ != (#[trigger] s.has_claimed@[b])@ by {
                                if b == s.has_claimed@.len() - 1 {
                                    assert(ledger0[a]@ != sender@);
                                }
                            }
                        }
                        let vote_w = s.votes[vi].vote.weight;
                        let choice_w = s.trial.choices[ci].weight;
                        proof {
                            lemma_vote_entry_le_svc(s.votes@, vi as int);
                        }
                        let pool: u128 = match s.voters_claim_amount {
                            Some(p) => p,
                            // unreachable: a trial with a verdict always has
                            // its reward pool persisted
                            None => unreached(),
                        };
                        let ratio: u32 = vote_w / choice_w;
                        proof {
                            if vote_w < choice_w {
                                lemma_basic_div(vote_w as int, choice_w as int);
                            } else {
                                lemma_div_by_self(choice_w as int);
                            }
                            assert(ratio == 0 || ratio == 1);
                            let pi = pool as int;
                            let ri = ratio as int;
                            assert(pi * ri <= pi) by (nonlinear_arith)
                                requires
                                    0 <= ri <= 1,
                                    0 <= pi,
                            ;
                        }
                        let amount: u128 = pool * (ratio as u128);
                        let msg = match &s.trial.token {
                            Token::Native { denom } => build_native_send_msg(
                                sender,
                                denom,
                                amount,
                            ),
                            Token::Cw20 { address } => build_cw20_transfer_msg(
                                contract_addr,
                                sender,
                                address,
                                amount,
                            ),
                        };
                        let mut response = claim_response("reward", amount);
                        response.messages.push(msg);
                        Ok(response)
                    },
                    None => {
                        // the sender didn't vote for the winner
                        Err(ContractError::NotAuthorized)
                    },
                }
            },
            None => {
                // the jury is still out, so nothing can be claimed
                Err(ContractError::NotDecided)
            },
        }
    }
}

} // verus!

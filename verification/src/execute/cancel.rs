//! Early termination of a trial by its owner.

use vstd::prelude::*;

use crate::error::ContractError;
use crate::models::Status;
use crate::response::Response;
use crate::state::State;

verus! {

/// The caller may cancel: only the trial's owner, and only while the trial
/// is still active or deciding.
pub open spec fn cancel_allowed(s: State, sender: Seq<char>) -> bool {
    &&& sender == s.trial.owner@
    &&& (s.trial.status is Active || s.trial.status is Deliberating)
}

/// Dismiss the trial early. No funds move at cancellation time; refunds are
/// deferred to claim settlement. The two failure causes (caller mismatch and
/// wrong status) are not distinguished to the caller.
pub fn cancel(s: &mut State, sender: &String, reason: &String) -> (r: Result<
    Response,
    ContractError,
>)
    requires
        old(s).wf(),
    ensures
        final(s).wf(),
        !cancel_allowed(*old(s), sender@) ==> r == Err::<Response, ContractError>(
            ContractError::NotAuthorized,
        ) && *final(s) == *old(s),
        cancel_allowed(*old(s), sender@) ==> {
            &&& r is Ok
            &&& final(s).trial.status is Dismissed
            &&& final(s).trial.owner == old(s).trial.owner
            &&& final(s).trial.prompt == old(s).trial.prompt
            &&& final(s).trial.choices == old(s).trial.choices
            &&& final(s).trial.verdict == old(s).trial.verdict
            &&& final(s).trial.token == old(s).trial.token
            &&& final(s).trial.price == old(s).trial.price
            &&& final(s).trial.style == old(s).trial.style
            &&& final(s).trial.weight == old(s).trial.weight
            &&& final(s).trial.winner == old(s).trial.winner
            &&& final(s).votes == old(s).votes
            &&& final(s).jurors == old(s).jurors
            &&& final(s).has_claimed == old(s).has_claimed
            &&& final(s).voters_claim_amount == old(s).voters_claim_amount
            &&& final(s).cancel_reason matches Some(re) && re == *reason
            &&& r matches Ok(resp) && resp.messages@.len() == 0 && resp.attributes@.len() == 1
                && resp.attributes@[0].key@ == "action"@ && resp.attributes@[0].value@
                == "cancel"@
        },
{
    if *sender == s.trial.owner && s.trial.can_be_canceled() {
        s.trial.status = Status::Dismissed;
        s.cancel_reason = Some(reason.clone());
        Ok(Response::new_action("cancel"))
    } else {
        Err(ContractError::NotAuthorized)
    }
}

} // verus!

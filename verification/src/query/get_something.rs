//! The trial snapshot under its ballot alias.

use vstd::prelude::*;

use crate::models::same_trial;
use crate::msg::GetBallotResponse;
use crate::state::State;

verus! {

/// A read-only snapshot of the trial, under the ballot alias.
pub fn get_ballot(s: &State) -> (r: GetBallotResponse)
    ensures
        same_trial(r.ballot, s.trial),
{
    GetBallotResponse { ballot: s.trial.clone() }
}

} // verus!

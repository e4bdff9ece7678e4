//! The full current trial snapshot.

use vstd::prelude::*;

use crate::models::same_trial;
use crate::msg::GetTrialResponse;
use crate::state::State;

verus! {

/// A read-only snapshot of the trial.
pub fn get_trial(s: &State) -> (r: GetTrialResponse)
    ensures
        same_trial(r.trial, s.trial),
{
    GetTrialResponse { trial: s.trial.clone() }
}

} // verus!

//! The messages consumed and produced at the host boundary, over plain
//! values. The host decodes its wire format into these and dispatches to the
//! engines.

use vstd::prelude::*;

use crate::models::{Style, Token, Trial, Verdict};
use crate::state::Something;

verus! {

/// One juror to register at instantiation: identity, display data and the
/// juror's percentage share of the total stake.
#[derive(Debug, PartialEq)]
pub struct JurorIntiatiationParams {
    pub address: String,
    pub name: String,
    pub url: Option<String>,
    pub pct: u8,
}

/// Everything a new trial is created from.
#[derive(Debug, PartialEq)]
pub struct InstantiateMsg {
    pub prompt: String,
    pub choices: Vec<String>,
    pub verdict: Verdict,
    pub token: Token,
    pub price: u128,
    pub style: Style,
    pub jury: Vec<JurorIntiatiationParams>,
}

/// Executable contract endpoints.
#[derive(Debug, PartialEq)]
pub enum ExecuteMsg {
    Vote { choice: u32, weight: u32 },
    Decide { choice: u32, logs: String },
    Cancel { reason: String },
    Claim {},
}

/// Custom contract query endpoints.
#[derive(Debug, PartialEq)]
pub enum QueryMsg {
    GetSomething {},
    GetTrial {},
}

#[derive(Debug, PartialEq)]
pub struct GetSomethingResponse {
    pub something: Something,
}

/// The full current trial snapshot.
#[derive(Debug, PartialEq)]
pub struct GetTrialResponse {
    pub trial: Trial,
}

/// The full current trial snapshot, under the ballot alias.
#[derive(Debug, PartialEq)]
pub struct GetBallotResponse {
    pub ballot: Trial,
}

} // verus!

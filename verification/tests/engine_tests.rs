use jury_trial::error::ContractError;
use jury_trial::execute::{cancel, claim, decide, decide_would_finalize, jury_payout_fits, vote};
use jury_trial::models::{
    Background, Font, ProgrammingLanguage, Status, Style, Token, Verdict,
};
use jury_trial::msg::{InstantiateMsg, JurorIntiatiationParams};
use jury_trial::response::{Coin, TransferMsg};
use jury_trial::state::{initialize, State};

fn style() -> Style {
    Style {
        background: Background::Value("plain".to_string()),
        font: Font { family: "mono".to_string(), color: "black".to_string() },
    }
}

fn verdict(start: u64, minutes: u32) -> Verdict {
    Verdict {
        script: "run".to_string(),
        language: ProgrammingLanguage::Python,
        start,
        minutes,
    }
}

fn juror(addr: &str, pct: u8) -> JurorIntiatiationParams {
    JurorIntiatiationParams {
        address: addr.to_string(),
        name: addr.to_uppercase(),
        url: None,
        pct,
    }
}

fn native_msg(choices: &[&str], price: u128, jury: &[(&str, u8)]) -> InstantiateMsg {
    InstantiateMsg {
        prompt: "which one".to_string(),
        choices: choices.iter().map(|c| c.to_string()).collect(),
        verdict: verdict(1_000, 30),
        token: Token::Native { denom: "uatom".to_string() },
        price,
        style: style(),
        jury: jury.iter().map(|(a, p)| juror(a, *p)).collect(),
    }
}

fn native_state(choices: &[&str], price: u128, jury: &[(&str, u8)]) -> State {
    initialize(&"owner".to_string(), &native_msg(choices, price, jury))
}

fn coins(denom: &str, amount: u128) -> Vec<Coin> {
    vec![Coin { denom: denom.to_string(), amount }]
}

fn contract() -> String {
    "contract".to_string()
}

fn cast(s: &mut State, voter: &str, choice: usize, weight: u32) -> Result<(), ContractError> {
    let price = s.trial.price;
    let funds = coins("uatom", weight as u128 * price);
    vote(s, &voter.to_string(), &contract(), choice, weight, &funds, 0).map(|_| ())
}

// While the trial is active, the trial's cumulative weight always equals the
// sum of the choices' weights, and each choice's weight the sum of the vote
// records cast for it.
#[test]
fn vote_accounting_invariant_holds() {
    let mut s = native_state(&["a", "b"], 10, &[("j1", 100)]);
    cast(&mut s, "alice", 0, 5).unwrap();
    cast(&mut s, "bob", 1, 3).unwrap();
    cast(&mut s, "alice", 0, 2).unwrap();
    cast(&mut s, "alice", 1, 1).unwrap();

    assert_eq!(s.trial.choices[0].weight, 7);
    assert_eq!(s.trial.choices[0].tally, 2);
    assert_eq!(s.trial.choices[1].weight, 4);
    assert_eq!(s.trial.choices[1].tally, 2);
    assert_eq!(s.trial.weight, 11);
    let sum: u32 = s.trial.choices.iter().map(|c| c.weight).sum();
    assert_eq!(s.trial.weight, sum);

    let per_choice: Vec<u32> = (0..2)
        .map(|c| {
            s.votes
                .iter()
                .filter(|e| e.vote.choice == c)
                .map(|e| e.vote.weight)
                .sum()
        })
        .collect();
    assert_eq!(per_choice, vec![7, 4]);

    // repeated votes by the same wallet on the same choice accumulate in
    // one record
    let alice0 = s
        .votes
        .iter()
        .find(|e| e.voter == "alice" && e.vote.choice == 0)
        .unwrap();
    assert_eq!(alice0.vote.weight, 7);
}

#[test]
fn vote_zero_weight_fails_and_mutates_nothing() {
    let mut s = native_state(&["a", "b"], 10, &[("j1", 100)]);
    let r = vote(
        &mut s,
        &"alice".to_string(),
        &contract(),
        0,
        0,
        &coins("uatom", 0),
        0,
    );
    assert_eq!(r.unwrap_err(), ContractError::InvalidWeight);
    assert_eq!(s, native_state(&["a", "b"], 10, &[("j1", 100)]));
}

#[test]
fn vote_on_closed_trial_fails() {
    let mut s = native_state(&["a"], 10, &[("j1", 100)]);
    s.trial.status = Status::Deliberating;
    let r = cast(&mut s, "alice", 0, 1);
    assert_eq!(r.unwrap_err(), ContractError::NotActive);
}

#[test]
fn vote_out_of_range_choice_fails() {
    let mut s = native_state(&["a", "b"], 10, &[("j1", 100)]);
    let r = cast(&mut s, "alice", 2, 1);
    assert_eq!(r.unwrap_err(), ContractError::InvalidChoice);
}

#[test]
fn vote_wrong_native_payment_fails() {
    let mut s = native_state(&["a"], 10, &[("j1", 100)]);
    let too_little = vote(
        &mut s,
        &"alice".to_string(),
        &contract(),
        0,
        2,
        &coins("uatom", 19),
        0,
    );
    assert_eq!(too_little.unwrap_err(), ContractError::InsufficientFunds);
    let too_much = vote(
        &mut s,
        &"alice".to_string(),
        &contract(),
        0,
        2,
        &coins("uatom", 21),
        0,
    );
    assert_eq!(too_much.unwrap_err(), ContractError::ExcessiveFunds);
    let wrong_denom = vote(
        &mut s,
        &"alice".to_string(),
        &contract(),
        0,
        2,
        &coins("uosmo", 20),
        0,
    );
    assert_eq!(wrong_denom.unwrap_err(), ContractError::InsufficientFunds);
    assert_eq!(s.trial.weight, 0);
}

#[test]
fn vote_emits_native_transfer_to_contract() {
    let mut s = native_state(&["a"], 10, &[("j1", 100)]);
    let r = vote(
        &mut s,
        &"alice".to_string(),
        &contract(),
        0,
        3,
        &coins("uatom", 30),
        0,
    )
    .unwrap();
    assert_eq!(r.messages.len(), 1);
    assert_eq!(
        r.messages[0],
        TransferMsg::Native {
            to_address: "contract".to_string(),
            denom: "uatom".to_string(),
            amount: 30,
        }
    );
    assert_eq!(r.attributes.len(), 1);
    assert_eq!(r.attributes[0].key, "action");
    assert_eq!(r.attributes[0].value, "vote");
}

#[test]
fn vote_cw20_checks_balance_and_emits_transfer_from() {
    let msg = InstantiateMsg {
        token: Token::Cw20 { address: "token".to_string() },
        ..native_msg(&["a"], 10, &[("j1", 100)])
    };
    let mut s = initialize(&"owner".to_string(), &msg);
    let poor = vote(&mut s, &"alice".to_string(), &contract(), 0, 3, &vec![], 29);
    assert_eq!(poor.unwrap_err(), ContractError::InsufficientFunds);
    let r = vote(&mut s, &"alice".to_string(), &contract(), 0, 3, &vec![], 30).unwrap();
    assert_eq!(
        r.messages[0],
        TransferMsg::Cw20 {
            owner: "alice".to_string(),
            recipient: "contract".to_string(),
            contract_addr: "token".to_string(),
            amount: 30,
        }
    );
}

// Unanimity: all jurors submitting the same choice, in any submission
// order, ends with a verdict for that choice; the jury is paid its
// truncated shares and the remainder is the voters' pool.
#[test]
fn unanimous_jury_finalizes_in_any_order() {
    for order in [["j1", "j2", "j3"], ["j3", "j1", "j2"], ["j2", "j3", "j1"]] {
        let mut s = native_state(&["a", "b"], 10, &[("j1", 50), ("j2", 30), ("j3", 19)]);
        cast(&mut s, "alice", 1, 10).unwrap();
        s.trial.status = Status::Deliberating;
        for j in order {
            let r = decide(
                &mut s,
                &j.to_string(),
                &contract(),
                1,
                &"log".to_string(),
                1_000,
            );
            assert!(r.is_ok());
        }
        assert_eq!(s.trial.status, Status::HasVerdict);
        assert_eq!(s.trial.winner, Some(1));
        // total = 10 * 10 = 100; rewards 50, 30, 19; pool 1
        assert_eq!(s.voters_claim_amount, Some(1));
    }
}

#[test]
fn unanimous_jury_reward_messages_are_truncated_shares() {
    let mut s = native_state(&["a"], 7, &[("j1", 60), ("j2", 40)]);
    cast(&mut s, "alice", 0, 3).unwrap();
    s.trial.status = Status::Deliberating;
    decide(&mut s, &"j1".to_string(), &contract(), 0, &"x".to_string(), 1_000).unwrap();
    let r = decide(&mut s, &"j2".to_string(), &contract(), 0, &"y".to_string(), 1_000).unwrap();
    // total = 21; 60% -> 12 (12.6 truncated), 40% -> 8 (8.4 truncated)
    let amounts: Vec<u128> = r
        .messages
        .iter()
        .map(|m| match m {
            TransferMsg::Native { amount, .. } => *amount,
            TransferMsg::Cw20 { amount, .. } => *amount,
        })
        .collect();
    assert_eq!(amounts, vec![12, 8]);
    assert_eq!(s.voters_claim_amount, Some(1));
    // the juror records carry the last submission
    assert_eq!(s.jurors[0].choice, Some(0));
    assert_eq!(s.jurors[0].logs, Some("x".to_string()));
}

// A disagreement hangs the jury at once and no further decision can change
// that outcome.
#[test]
fn disagreement_hangs_the_jury() {
    let mut s = native_state(&["a", "b"], 10, &[("j1", 34), ("j2", 33), ("j3", 33)]);
    s.trial.status = Status::Deliberating;
    decide(&mut s, &"j1".to_string(), &contract(), 0, &"l".to_string(), 1_000).unwrap();
    decide(&mut s, &"j2".to_string(), &contract(), 0, &"l".to_string(), 1_000).unwrap();
    assert_eq!(s.trial.status, Status::Deliberating);
    decide(&mut s, &"j3".to_string(), &contract(), 1, &"l".to_string(), 1_000).unwrap();
    assert_eq!(s.trial.status, Status::HungJury);
    assert_eq!(s.trial.winner, None);
    let after = decide(&mut s, &"j3".to_string(), &contract(), 0, &"l".to_string(), 1_000);
    assert_eq!(after.unwrap_err(), ContractError::NotDeciding);
    assert_eq!(s.trial.status, Status::HungJury);
}

#[test]
fn decide_after_deadline_fails() {
    // start 1_000 ns, 30 minutes: deadline = 1_000 + 30 * 60 * 1e9
    let deadline: u64 = 1_000 + 30 * 60 * 1_000_000_000;
    let mut s = native_state(&["a"], 10, &[("j1", 100)]);
    s.trial.status = Status::Deliberating;
    let at_deadline = decide(
        &mut s,
        &"j1".to_string(),
        &contract(),
        0,
        &"l".to_string(),
        deadline,
    );
    assert!(at_deadline.is_ok());
    let mut s2 = native_state(&["a"], 10, &[("j1", 100)]);
    s2.trial.status = Status::Deliberating;
    let past = decide(
        &mut s2,
        &"j1".to_string(),
        &contract(),
        0,
        &"l".to_string(),
        deadline + 1,
    );
    assert_eq!(past.unwrap_err(), ContractError::DeliberationsExpired);
    assert_eq!(s2.jurors[0].choice, None);
}

#[test]
fn decide_by_stranger_or_bad_choice_fails() {
    let mut s = native_state(&["a"], 10, &[("j1", 100)]);
    s.trial.status = Status::Deliberating;
    let stranger = decide(&mut s, &"eve".to_string(), &contract(), 0, &"l".to_string(), 1_000);
    assert_eq!(stranger.unwrap_err(), ContractError::NotAuthorized);
    let bad = decide(&mut s, &"j1".to_string(), &contract(), 1, &"l".to_string(), 1_000);
    assert_eq!(bad.unwrap_err(), ContractError::InvalidChoice);
}

// Claiming a prize twice: the first call transfers the pool times the
// wallet's weight ratio, the second fails.
#[test]
fn prize_claim_is_write_once() {
    let mut s = native_state(&["a", "b"], 10, &[("j1", 60), ("j2", 20)]);
    cast(&mut s, "alice", 0, 10).unwrap();
    s.trial.status = Status::Deliberating;
    decide(&mut s, &"j1".to_string(), &contract(), 0, &"l".to_string(), 1_000).unwrap();
    decide(&mut s, &"j2".to_string(), &contract(), 0, &"l".to_string(), 1_000).unwrap();
    // total = 100; rewards 60 + 20; pool 20
    assert_eq!(s.voters_claim_amount, Some(20));
    let r = claim(&mut s, &"alice".to_string(), &contract()).unwrap();
    // alice holds the whole winning weight: ratio 10 / 10 = 1, amount 20
    assert_eq!(
        r.messages[0],
        TransferMsg::Native {
            to_address: "alice".to_string(),
            denom: "uatom".to_string(),
            amount: 20,
        }
    );
    assert_eq!(r.attributes[1].value, "reward");
    assert_eq!(r.attributes[2].value, "20");
    let again = claim(&mut s, &"alice".to_string(), &contract());
    assert_eq!(again.unwrap_err(), ContractError::HasClaimed);
}

#[test]
fn partial_weight_prize_truncates_to_zero() {
    let mut s = native_state(&["a"], 10, &[("j1", 50)]);
    cast(&mut s, "alice", 0, 7).unwrap();
    cast(&mut s, "bob", 0, 3).unwrap();
    s.trial.status = Status::Deliberating;
    decide(&mut s, &"j1".to_string(), &contract(), 0, &"l".to_string(), 1_000).unwrap();
    // total = 100, jury reward 50, pool 50
    assert_eq!(s.voters_claim_amount, Some(50));
    // alice's ratio 7 / 10 truncates to 0: her share settles to zero
    let r = claim(&mut s, &"alice".to_string(), &contract()).unwrap();
    assert_eq!(
        r.messages[0],
        TransferMsg::Native {
            to_address: "alice".to_string(),
            denom: "uatom".to_string(),
            amount: 0,
        }
    );
}

// The degenerate example: all stake goes to the jury, voters settle to
// zero.
#[test]
fn exhausted_pool_pays_zero_prizes() {
    let mut s = native_state(&["a", "b"], 10, &[("j1", 60), ("j2", 40)]);
    cast(&mut s, "v1", 0, 5).unwrap();
    cast(&mut s, "v2", 0, 3).unwrap();
    cast(&mut s, "v3", 0, 2).unwrap();
    s.trial.status = Status::Deliberating;
    decide(&mut s, &"j1".to_string(), &contract(), 0, &"l".to_string(), 1_000).unwrap();
    let r = decide(&mut s, &"j2".to_string(), &contract(), 0, &"l".to_string(), 1_000).unwrap();
    // total = 10 * 10 = 100; jury rewards 60 and 40; voters pool 0
    let amounts: Vec<u128> = r
        .messages
        .iter()
        .map(|m| match m {
            TransferMsg::Native { amount, .. } => *amount,
            TransferMsg::Cw20 { amount, .. } => *amount,
        })
        .collect();
    assert_eq!(amounts, vec![60, 40]);
    assert_eq!(s.voters_claim_amount, Some(0));
    for v in ["v1", "v2", "v3"] {
        let r = claim(&mut s, &v.to_string(), &contract()).unwrap();
        match &r.messages[0] {
            TransferMsg::Native { amount, .. } => assert_eq!(*amount, 0),
            _ => panic!("expected a native instruction"),
        }
    }
}

// Cancellation: the owner dismisses the trial; a voter reclaims exactly its
// stake. Refunds could conceivably be recomputed from raw vote weight on
// every call; this library deliberately gates them through the same
// write-once claim ledger as prizes, so the second refund claim is
// rejected rather than paid again.
#[test]
fn cancel_then_refund_then_rejected_repeat() {
    let mut s = native_state(&["a", "b"], 10, &[("j1", 100)]);
    cast(&mut s, "alice", 0, 4).unwrap();
    let denied = cancel(&mut s, &"eve".to_string(), &"because".to_string());
    assert_eq!(denied.unwrap_err(), ContractError::NotAuthorized);
    let r = cancel(&mut s, &"owner".to_string(), &"rigged".to_string()).unwrap();
    assert_eq!(r.attributes[0].value, "cancel");
    assert_eq!(s.trial.status, Status::Dismissed);
    assert_eq!(s.cancel_reason, Some("rigged".to_string()));

    let refund = claim(&mut s, &"alice".to_string(), &contract()).unwrap();
    assert_eq!(
        refund.messages[0],
        TransferMsg::Native {
            to_address: "alice".to_string(),
            denom: "uatom".to_string(),
            amount: 40,
        }
    );
    assert_eq!(refund.attributes[1].value, "refund");
    assert_eq!(refund.attributes[2].key, "amount");
    assert_eq!(refund.attributes[2].value, "40");
    let again = claim(&mut s, &"alice".to_string(), &contract());
    assert_eq!(again.unwrap_err(), ContractError::HasClaimed);
    let stranger = claim(&mut s, &"eve".to_string(), &contract());
    assert_eq!(stranger.unwrap_err(), ContractError::NotAuthorized);
}

#[test]
fn refund_after_hung_jury_sums_all_choices() {
    let mut s = native_state(&["a", "b"], 5, &[("j1", 50), ("j2", 50)]);
    cast(&mut s, "alice", 0, 2).unwrap();
    cast(&mut s, "alice", 1, 3).unwrap();
    s.trial.status = Status::Deliberating;
    decide(&mut s, &"j1".to_string(), &contract(), 0, &"l".to_string(), 1_000).unwrap();
    decide(&mut s, &"j2".to_string(), &contract(), 1, &"l".to_string(), 1_000).unwrap();
    assert_eq!(s.trial.status, Status::HungJury);
    let refund = claim(&mut s, &"alice".to_string(), &contract()).unwrap();
    // 5 weight in all, at price 5
    assert_eq!(
        refund.messages[0],
        TransferMsg::Native {
            to_address: "alice".to_string(),
            denom: "uatom".to_string(),
            amount: 25,
        }
    );
}

#[test]
fn claim_before_resolution_fails() {
    let mut s = native_state(&["a"], 10, &[("j1", 100)]);
    cast(&mut s, "alice", 0, 1).unwrap();
    let r = claim(&mut s, &"alice".to_string(), &contract());
    assert_eq!(r.unwrap_err(), ContractError::NotDecided);
    s.trial.status = Status::Deliberating;
    let r2 = claim(&mut s, &"alice".to_string(), &contract());
    assert_eq!(r2.unwrap_err(), ContractError::NotDecided);
}

#[test]
fn prize_claim_needs_a_winning_vote() {
    let mut s = native_state(&["a", "b"], 10, &[("j1", 100)]);
    cast(&mut s, "alice", 0, 2).unwrap();
    cast(&mut s, "bob", 1, 2).unwrap();
    s.trial.status = Status::Deliberating;
    decide(&mut s, &"j1".to_string(), &contract(), 0, &"l".to_string(), 1_000).unwrap();
    assert_eq!(s.trial.status, Status::HasVerdict);
    let r = claim(&mut s, &"bob".to_string(), &contract());
    assert_eq!(r.unwrap_err(), ContractError::NotAuthorized);
}

// Jurors are stored, scanned and paid ascending by identity, whatever
// order they were registered in.
#[test]
fn jury_is_paid_in_ascending_identity_order() {
    let mut s = native_state(&["a"], 10, &[("zoe", 60), ("ann", 40)]);
    assert_eq!(s.jurors[0].address, "ann");
    assert_eq!(s.jurors[1].address, "zoe");
    cast(&mut s, "alice", 0, 10).unwrap();
    s.trial.status = Status::Deliberating;
    decide(&mut s, &"zoe".to_string(), &contract(), 0, &"l".to_string(), 1_000).unwrap();
    let r = decide(&mut s, &"ann".to_string(), &contract(), 0, &"l".to_string(), 1_000).unwrap();
    // total = 100: ann's 40 comes first, zoe's 60 second
    assert_eq!(
        r.messages,
        vec![
            TransferMsg::Native {
                to_address: "ann".to_string(),
                denom: "uatom".to_string(),
                amount: 40,
            },
            TransferMsg::Native {
                to_address: "zoe".to_string(),
                denom: "uatom".to_string(),
                amount: 60,
            },
        ]
    );
}

// The scan walks ascending identities: a recorded disagreement standing
// before the first undecided juror hangs the jury, regardless of the
// order the jurors were registered in.
#[test]
fn earlier_identity_disagreement_hangs_before_undecided() {
    let mut s = native_state(&["a", "b"], 10, &[("carol", 30), ("bob", 30), ("ann", 30)]);
    assert_eq!(s.jurors[0].address, "ann");
    s.trial.status = Status::Deliberating;
    // ann has decided choice 0; bob is still undecided
    decide(&mut s, &"ann".to_string(), &contract(), 0, &"l".to_string(), 1_000).unwrap();
    assert_eq!(s.trial.status, Status::Deliberating);
    // carol submits choice 1: the scan sees ann's disagreement before
    // undecided bob and hangs the jury at once
    decide(&mut s, &"carol".to_string(), &contract(), 1, &"l".to_string(), 1_000).unwrap();
    assert_eq!(s.trial.status, Status::HungJury);
    assert_eq!(s.trial.winner, None);
}

#[test]
fn decide_guards_report_finalization_and_payout() {
    let mut s = native_state(&["a"], 10, &[("j1", 60), ("j2", 40)]);
    cast(&mut s, "alice", 0, 2).unwrap();
    s.trial.status = Status::Deliberating;
    let logs = "l".to_string();
    // the first submission leaves the other juror undecided
    assert!(!decide_would_finalize(&s, &"j1".to_string(), 0, &logs, 1_000));
    decide(&mut s, &"j1".to_string(), &contract(), 0, &logs, 1_000).unwrap();
    // the second submission completes the jury
    assert!(decide_would_finalize(&s, &"j2".to_string(), 0, &logs, 1_000));
    assert!(jury_payout_fits(&s, &"j2".to_string(), 0, &logs));
    // shares summing over 100 percent would overdraw the stake
    s.jurors[0].pct = 90;
    s.jurors[1].pct = 90;
    assert!(!jury_payout_fits(&s, &"j2".to_string(), 0, &logs));
}

#[test]
fn cancel_after_resolution_fails() {
    let mut s = native_state(&["a"], 10, &[("j1", 100)]);
    s.trial.status = Status::HasVerdict;
    s.trial.winner = Some(0);
    s.voters_claim_amount = Some(0);
    let r = cancel(&mut s, &"owner".to_string(), &"late".to_string());
    assert_eq!(r.unwrap_err(), ContractError::NotAuthorized);
}

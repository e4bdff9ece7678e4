//! Jury decision aggregation. A juror uploads the result of running the
//! verdict script; once every juror has decided and all agree, the trial
//! gains a verdict, the jury is paid its shares of the total stake, and the
//! remainder is set aside as the voters' reward pool.

use vstd::prelude::*;

use crate::error::ContractError;
use crate::models::{
    decided_juror, deliberation_deadline, find_juror, juror_index, juror_reward, jury_scan,
    lemma_juror_index, lemma_jury_scan_skip, lemma_sum_juror_rewards_take_le,
    lemma_sum_juror_rewards_zero, sum_juror_rewards, Juror, JuryOutcome, Status, Token,
};
use crate::response::{Response, TransferMsg};
use crate::state::State;
use crate::util::{build_cw20_transfer_msg, build_native_send_msg};

verus! {

/// The caller is a registered juror.
pub open spec fn decide_authorized(s: State, sender: Seq<char>) -> bool {
    juror_index(s.jurors@, sender) != -1
}

/// The decision is admissible: a registered juror, a deliberating trial, a
/// choice in range and a call within the deliberation window.
pub open spec fn decide_admissible(s: State, sender: Seq<char>, choice_index: int, now: int) -> bool {
    &&& decide_authorized(s, sender)
    &&& s.trial.status is Deliberating
    &&& 0 <= choice_index < s.trial.choices@.len()
    &&& now <= deliberation_deadline(s.trial.verdict)
}

/// The total stake of the trial: its per-unit price times the funded weight.
pub open spec fn trial_total(s: State) -> int {
    s.trial.price * s.trial.weight
}

/// The juror records after the caller's submission is recorded on them.
pub open spec fn recorded_jurors(s: State, sender: Seq<char>, choice_index: int, logs: String) -> Seq<
    Juror,
> {
    let jix = juror_index(s.jurors@, sender);
    s.jurors@.update(jix, decided_juror(s.jurors@[jix], choice_index as u32, logs))
}

/// An admissible decision completes the jury unanimously and the trial
/// finalizes on this call.
pub open spec fn decide_finalizes(
    s: State,
    sender: Seq<char>,
    choice_index: int,
    logs: String,
    now: int,
) -> bool {
    &&& decide_admissible(s, sender, choice_index, now)
    &&& jury_scan(recorded_jurors(s, sender, choice_index, logs), choice_index) is Unanimous
}

/// The machine can carry the jury payout out: each share product fits the
/// amount type and the disbursed rewards do not exceed the total stake.
/// Both hold whenever the jurors' shares sum to at most 100.
pub open spec fn decide_payout_fits(
    s: State,
    sender: Seq<char>,
    choice_index: int,
    logs: String,
) -> bool {
    let jurors1 = recorded_jurors(s, sender, choice_index, logs);
    let total = trial_total(s);
    &&& forall|k: int|
        0 <= k < jurors1.len() ==> (#[trigger] jurors1[k]).pct * total <= u128::MAX
    &&& sum_juror_rewards(jurors1, total) <= total
}

/// The transfer instruction that pays one juror's reward: directly from the
/// ledger for a natively funded trial, out of the contract's token balance
/// for a token-funded one.
pub open spec fn jury_reward_msg(j: Juror, token: Token, contract_addr: String, total: int) -> TransferMsg {
    match token {
        Token::Native { denom } => TransferMsg::Native {
            to_address: j.address,
            denom,
            amount: juror_reward(j.pct, total) as u128,
        },
        Token::Cw20 { address } => TransferMsg::Cw20 {
            owner: contract_addr,
            recipient: j.address,
            contract_addr: address,
            amount: juror_reward(j.pct, total) as u128,
        },
    }
}

/// The reward instructions for the whole jury, in record order (ascending
/// juror identity, under the store invariant).
pub open spec fn jury_reward_msgs(
    jurors: Seq<Juror>,
    token: Token,
    contract_addr: String,
    total: int,
) -> Seq<TransferMsg>
    decreases jurors.len(),
{
    if jurors.len() == 0 {
        Seq::empty()
    } else {
        jury_reward_msgs(jurors.drop_last(), token, contract_addr, total).push(
            jury_reward_msg(jurors.last(), token, contract_addr, total),
        )
    }
}

/// Whether this submission would complete the jury unanimously and
/// finalize the trial. Hosts use it, together with `jury_payout_fits`, to
/// test before calling `decide` that the payout arithmetic it requires will
/// go through.
pub fn decide_would_finalize(
    s: &State,
    sender: &String,
    choice_index: usize,
    script_logs: &String,
    now: u64,
) -> (r: bool)
    requires
        s.wf(),
    ensures
        r == decide_finalizes(*s, sender@, choice_index as int, *script_logs, now as int),
{
    let jx = match find_juror(&s.jurors, sender) {
        Some(i) => i,
        None => {
            return false;
        },
    };
    proof {
        lemma_juror_index(s.jurors@, sender@);
    }
    if !s.trial.is_in_deliberations() {
        return false;
    }
    if choice_index >= s.trial.choices.len() {
        return false;
    }
    let end_time: u128 = (s.trial.verdict.start as u128) + 60u128 * (s.trial.verdict.minutes
        as u128) * 1_000_000_000u128;
    if (now as u128) > end_time {
        return false;
    }

    let cc: u32 = choice_index as u32;
    let ghost jurors1 = recorded_jurors(*s, sender@, choice_index as int, *script_logs);
    let mut undecided = false;
    let mut hung = false;
    let mut k: usize = 0;
    while k < s.jurors.len()
        invariant_except_break
            k <= jurors1.len(),
            jurors1 == recorded_jurors(*s, sender@, choice_index as int, *script_logs),
            jurors1.len() == s.jurors@.len(),
            jx < s.jurors@.len(),
            jx == juror_index(s.jurors@, sender@),
            jurors1[jx as int].choice == Some(cc),
            forall|j: int| 0 <= j < jurors1.len() && j != jx ==> (#[trigger] jurors1[j]).choice
                == s.jurors@[j].choice,
            !undecided,
            !hung,
            forall|j: int|
                0 <= j < k ==> (#[trigger] jurors1[j]).choice is Some
                    && jurors1[j].choice.unwrap() == cc,
        ensures
            k <= jurors1.len(),
            undecided ==> k < jurors1.len() && jurors1[k as int].choice is None,
            hung ==> k < jurors1.len() && jurors1[k as int].choice is Some
                && jurors1[k as int].choice.unwrap() != cc,
            (undecided || hung) ==> forall|j: int|
                0 <= j < k ==> (#[trigger] jurors1[j]).choice is Some
                    && jurors1[j].choice.unwrap() == cc,
            !undecided && !hung ==> forall|j: int|
                0 <= j < jurors1.len() ==> (#[trigger] jurors1[j]).choice is Some
                    && jurors1[j].choice.unwrap() == cc,
        decreases jurors1.len() - k,
    {
        let ch: Option<u32> = if k == jx {
            Some(cc)
        } else {
            s.jurors[k].choice
        };
        proof {
            assert(ch == jurors1[k as int].choice);
        }
        match ch {
            None => {
                undecided = true;
                break ;
            },
            Some(d) => {
                if d != cc {
                    hung = true;
                    break ;
                }
            },
        }
        k = k + 1;
    }
    proof {
        if undecided || hung {
            lemma_jury_scan_skip(jurors1, choice_index as int, k as int);
            assert(jurors1.skip(k as int).first() == jurors1[k as int]);
        } else {
            lemma_jury_scan_skip(jurors1, choice_index as int, jurors1.len() as int);
            assert(jurors1.skip(jurors1.len() as int) =~= Seq::<Juror>::empty());
        }
    }
    !undecided && !hung
}

/// Whether the payout arithmetic of a finalizing decision fits the machine:
/// every share product fits the amount type and the truncated rewards sum
/// to at most the total stake. Hosts test it before a call to `decide` that
/// would finalize; it holds whenever the jurors' shares sum to at most 100.
pub fn jury_payout_fits(
    s: &State,
    sender: &String,
    choice_index: usize,
    script_logs: &String,
) -> (r: bool)
    requires
        s.wf(),
        decide_authorized(*s, sender@),
    ensures
        r == decide_payout_fits(*s, sender@, choice_index as int, *script_logs),
{
    proof {
        lemma_juror_index(s.jurors@, sender@);
    }
    let ghost jurors1 = recorded_jurors(*s, sender@, choice_index as int, *script_logs);
    let ghost gtotal = trial_total(*s);
    let total: u128 = s.trial.price * (s.trial.weight as u128);
    proof {
        assert(gtotal >= 0) by (nonlinear_arith)
            requires
                gtotal == s.trial.price * s.trial.weight,
                s.trial.price >= 0,
                s.trial.weight >= 0,
        ;
        assert(jurors1.len() == s.jurors@.len());
        assert(forall|j: int|
            0 <= j < jurors1.len() ==> (#[trigger] jurors1[j]).pct == s.jurors@[j].pct);
    }
    let mut sum: u128 = 0;
    let mut k: usize = 0;
    while k < s.jurors.len()
        invariant
            k <= s.jurors@.len(),
            s.wf(),
            jurors1 == recorded_jurors(*s, sender@, choice_index as int, *script_logs),
            jurors1.len() == s.jurors@.len(),
            forall|j: int|
                0 <= j < jurors1.len() ==> (#[trigger] jurors1[j]).pct == s.jurors@[j].pct,
            gtotal == trial_total(*s),
            gtotal >= 0,
            total == gtotal,
            sum == sum_juror_rewards(jurors1.take(k as int), gtotal),
            forall|j: int| 0 <= j < k ==> (#[trigger] jurors1[j]).pct * gtotal <= u128::MAX,
        decreases s.jurors@.len() - k,
    {
        proof {
            assert(jurors1.take(k + 1).drop_last() =~= jurors1.take(k as int));
            assert(jurors1.take(k + 1).last() == jurors1[k as int]);
        }
        match (s.jurors[k].pct as u128).checked_mul(total) {
            None => {
                return false;
            },
            Some(prod) => {
                let amount: u128 = prod / 100;
                match sum.checked_add(amount) {
                    None => {
                        proof {
                            lemma_sum_juror_rewards_take_le(jurors1, gtotal, k + 1);
                        }
                        return false;
                    },
                    Some(next) => {
                        sum = next;
                    },
                }
            },
        }
        k = k + 1;
    }
    proof {
        assert(jurors1.take(s.jurors@.len() as int) =~= jurors1);
    }
    sum <= total
}

/// A juror submits the outcome of running the verdict script, with its
/// logs; the last submission wins. The records are then scanned in record
/// order, which the store invariant keeps strictly ascending by juror
/// identity: a juror who has not decided yet leaves the trial deliberating,
/// a recorded disagreement hangs the jury at once, and full agreement
/// finalizes the trial. On finalization each juror is paid
/// `pct * total / 100` (truncating), in the same ascending identity order,
/// and the remainder of the total stake is persisted as the voters' reward
/// pool, so that settlement can always read it. On any error the store is
/// untouched.
pub fn decide(
    s: &mut State,
    sender: &String,
    contract_addr: &String,
    choice_index: usize,
    script_logs: &String,
    now: u64,
) -> (r: Result<Response, ContractError>)
    requires
        old(s).wf(),
        decide_finalizes(*old(s), sender@, choice_index as int, *script_logs, now as int)
            ==> decide_payout_fits(*old(s), sender@, choice_index as int, *script_logs),
    ensures
        final(s).wf(),
        r is Err ==> *final(s) == *old(s),
        !decide_authorized(*old(s), sender@) ==> r == Err::<Response, ContractError>(
            ContractError::NotAuthorized,
        ),
        decide_authorized(*old(s), sender@) && !(old(s).trial.status is Deliberating) ==> r
            == Err::<Response, ContractError>(ContractError::NotDeciding),
        decide_authorized(*old(s), sender@) && old(s).trial.status is Deliberating && choice_index
            >= old(s).trial.choices@.len() ==> r == Err::<Response, ContractError>(
            ContractError::InvalidChoice,
        ),
        decide_authorized(*old(s), sender@) && old(s).trial.status is Deliberating && choice_index
            < old(s).trial.choices@.len() && now > deliberation_deadline(old(s).trial.verdict)
            ==> r == Err::<Response, ContractError>(ContractError::DeliberationsExpired),
        decide_admissible(*old(s), sender@, choice_index as int, now as int) ==> ({
            let jurors1 = recorded_jurors(*old(s), sender@, choice_index as int, *script_logs);
            let outcome = jury_scan(jurors1, choice_index as int);
            let total = trial_total(*old(s));
            &&& r is Ok
            &&& final(s).jurors@ == jurors1
            &&& final(s).votes == old(s).votes
            &&& final(s).has_claimed == old(s).has_claimed
            &&& final(s).cancel_reason == old(s).cancel_reason
            &&& final(s).trial.owner == old(s).trial.owner
            &&& final(s).trial.prompt == old(s).trial.prompt
            &&& final(s).trial.choices == old(s).trial.choices
            &&& final(s).trial.verdict == old(s).trial.verdict
            &&& final(s).trial.token == old(s).trial.token
            &&& final(s).trial.price == old(s).trial.price
            &&& final(s).trial.style == old(s).trial.style
            &&& final(s).trial.weight == old(s).trial.weight
            &&& (outcome is Undecided ==> final(s).trial.status is Deliberating
                && final(s).trial.winner == old(s).trial.winner
                && final(s).voters_claim_amount == old(s).voters_claim_amount
                && (r matches Ok(resp) && resp.messages@.len() == 0))
            &&& (outcome is Hung ==> final(s).trial.status is HungJury
                && final(s).trial.winner == old(s).trial.winner
                && final(s).voters_claim_amount == old(s).voters_claim_amount
                && (r matches Ok(resp) && resp.messages@.len() == 0))
            &&& (outcome is Unanimous ==> {
                &&& final(s).trial.status is HasVerdict
                &&& final(s).trial.winner == Some(choice_index as u32)
                &&& final(s).voters_claim_amount == Some(
                    (total - sum_juror_rewards(jurors1, total)) as u128,
                )
                &&& total > 0 ==> (r matches Ok(resp) && resp.messages@ == jury_reward_msgs(
                    jurors1,
                    old(s).trial.token,
                    *contract_addr,
                    total,
                ))
                &&& total == 0 ==> (r matches Ok(resp) && resp.messages@.len() == 0)
            })
            &&& (r matches Ok(resp) && resp.attributes@.len() == 1 && resp.attributes@[0].key@
                == "action"@ && resp.attributes@[0].value@ == "decide"@)
        }),
{
    let jx = match find_juror(&s.jurors, sender) {
        Some(i) => i,
        None => {
            return Err(ContractError::NotAuthorized);
        },
    };
    proof {
        lemma_juror_index(s.jurors@, sender@);
    }
    // abort if we're not in the deciding state
    if !s.trial.is_in_deliberations() {
        return Err(ContractError::NotDeciding);
    }
    // abort if the jury is casting a vote for an invalid choice
    if choice_index >= s.trial.choices.len() {
        return Err(ContractError::InvalidChoice);
    }
    // abort if the deliberation period has ended; the deadline is computed
    // widely so the conversion of minutes to nanoseconds cannot overflow
    let end_time: u128 = (s.trial.verdict.start as u128) + 60u128 * (s.trial.verdict.minutes
        as u128) * 1_000_000_000u128;
    if (now as u128) > end_time {
        return Err(ContractError::DeliberationsExpired);
    }

    let ghost jurors0 = s.jurors@;
    let cc: u32 = choice_index as u32;

    // persist the juror's choice and script execution logs (overwrite
    // semantics: the last submission wins)
    let record = Juror {
        address: s.jurors[jx].address.clone(),
        name: s.jurors[jx].name.clone(),
        url: crate::models::clone_opt_string(&s.jurors[jx].url),
        choice: Some(cc),
        logs: Some(script_logs.clone()),
        pct: s.jurors[jx].pct,
    };
    s.jurors[jx] = record;
    let ghost jurors1 = s.jurors@;
    proof {
        assert(jurors1 == recorded_jurors(*old(s), sender@, choice_index as int, *script_logs));
        assert forall|a: int, b: int| 0 <= a < b < jurors1.len() implies (
        #[trigger] jurors1[a]).address@ != (#[trigger] jurors1[b]).address@ by {
            assert(jurors1[a].address@ == jurors0[a].address@);
            assert(jurors1[b].address@ == jurors0[b].address@);
        }
    }

    // determine whether the jury is now unanimous, hung, or still waiting
    // on a juror
    let mut undecided = false;
    let mut hung = false;
    let mut k: usize = 0;
    while k < s.jurors.len()
        invariant_except_break
            k <= jurors1.len(),
            s.jurors@ == jurors1,
            !undecided,
            !hung,
            forall|j: int|
                0 <= j < k ==> (#[trigger] jurors1[j]).choice is Some
                    && jurors1[j].choice.unwrap() == cc,
        ensures
            s.jurors@ == jurors1,
            k <= jurors1.len(),
            undecided ==> k < jurors1.len() && jurors1[k as int].choice is None && (forall|j: int|
                0 <= j < k ==> (#[trigger] jurors1[j]).choice is Some
                    && jurors1[j].choice.unwrap() == cc),
            hung ==> k < jurors1.len() && jurors1[k as int].choice is Some
                && jurors1[k as int].choice.unwrap() != cc && (forall|j: int|
                0 <= j < k ==> (#[trigger] jurors1[j]).choice is Some
                    && jurors1[j].choice.unwrap() == cc),
            !undecided && !hung ==> forall|j: int|
                0 <= j < jurors1.len() ==> (#[trigger] jurors1[j]).choice is Some
                    && jurors1[j].choice.unwrap() == cc,
            !(undecided && hung),
        decreases jurors1.len() - k,
    {
        match s.jurors[k].choice {
            None => {
                // the trial can't be decided unless 100% of jurors are
                // present, and this juror hasn't made their choice yet
                undecided = true;
                break ;
            },
            Some(d) => {
                if d != cc {
                    hung = true;
                    break ;
                }
            },
        }
        k = k + 1;
    }

    proof {
        if undecided {
            lemma_jury_scan_skip(jurors1, choice_index as int, k as int);
            assert(jurors1.skip(k as int).first() == jurors1[k as int]);
            assert(jury_scan(jurors1, choice_index as int) is Undecided);
        } else if hung {
            lemma_jury_scan_skip(jurors1, choice_index as int, k as int);
            assert(jurors1.skip(k as int).first() == jurors1[k as int]);
            assert(jury_scan(jurors1, choice_index as int) is Hung);
        } else {
            lemma_jury_scan_skip(jurors1, choice_index as int, jurors1.len() as int);
            assert(jurors1.skip(jurors1.len() as int) =~= Seq::<Juror>::empty());
            assert(jury_scan(jurors1, choice_index as int) is Unanimous);
        }
    }

    if undecided {
        // the jury is not yet complete: the trial stays deliberating
        return Ok(Response::new_action("decide"));
    }
    if hung {
        // a recorded disagreement hangs the jury immediately
        s.trial.status = Status::HungJury;
        return Ok(Response::new_action("decide"));
    }

    // all jurors are present and in agreement: the trial has its verdict
    s.trial.status = Status::HasVerdict;
    s.trial.winner = Some(cc);

    let total: u128 = s.trial.price * (s.trial.weight as u128);
    let ghost gtotal = trial_total(*old(s));
    proof {
        assert(decide_payout_fits(*old(s), sender@, choice_index as int, *script_logs));
    }

    let mut response = Response::new_action("decide");
    if total > 0 {
        // pay each juror its share of the total stake, in record order
        let mut msgs: Vec<TransferMsg> = Vec::new();
        let mut jurors_total: u128 = 0;
        let mut i: usize = 0;
        while i < s.jurors.len()
            invariant
                i <= jurors1.len(),
                s.jurors@ == jurors1,
                s.trial.token == old(s).trial.token,
                total == gtotal,
                total <= u128::MAX,
                forall|j: int|
                    0 <= j < jurors1.len() ==> (#[trigger] jurors1[j]).pct * gtotal <= u128::MAX,
                sum_juror_rewards(jurors1, gtotal) <= gtotal,
                jurors_total == sum_juror_rewards(jurors1.take(i as int), gtotal),
                msgs@ == jury_reward_msgs(
                    jurors1.take(i as int),
                    old(s).trial.token,
                    *contract_addr,
                    gtotal,
                ),
            decreases jurors1.len() - i,
        {
            proof {
                lemma_sum_juror_rewards_take_le(jurors1, gtotal, i + 1);
                assert(jurors1.take(i + 1).drop_last() =~= jurors1.take(i as int));
                assert(jurors1.take(i + 1).last() == jurors1[i as int]);
            }
            let amount: u128 = (s.jurors[i].pct as u128) * total / 100;
            jurors_total = jurors_total + amount;
            match &s.trial.token {
                Token::Cw20 { address } => {
                    msgs.push(
                        build_cw20_transfer_msg(contract_addr, &s.jurors[i].address, address, amount),
                    );
                },
                Token::Native { denom } => {
                    msgs.push(build_native_send_msg(&s.jurors[i].address, denom, amount));
                },
            }
            i = i + 1;
        }
        proof {
            assert(jurors1.take(jurors1.len() as int) =~= jurors1);
        }
        // the remainder of the stake is what winning voters will claim
        s.voters_claim_amount = Some(total - jurors_total);
        response.messages = msgs;
    } else {
        proof {
            lemma_sum_juror_rewards_zero(jurors1);
        }
        s.voters_claim_amount = Some(0);
    }
    Ok(response)
}

} // verus!

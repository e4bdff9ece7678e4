//! The library-wide laws: what holds of the jury scan and of the payout
//! arithmetic across the engines, proved once and stated publicly.

use vstd::prelude::*;

use crate::execute::{
    decide_payout_fits, jury_reward_msgs, recorded_jurors, trial_total,
};
use crate::models::{
    juror_index, juror_reward, jury_scan, lemma_sum_juror_rewards_nonneg, sum_juror_pcts,
    sum_juror_rewards, Juror, Token,
};
use crate::response::{transfer_amount, TransferMsg};
use crate::state::State;
use vstd::arithmetic::div_mod::{
    lemma_div_is_ordered, lemma_div_multiples_vanish, lemma_fundamental_div_mod,
    lemma_mod_division_less_than_divisor,
};

verus! {

/// The jury scan is unanimous exactly when every juror has submitted the
/// choice `c`. In particular the outcome depends only on the recorded
/// choices, not on the order in which the jurors submitted them.
pub proof fn lemma_jury_unanimous_iff(jurors: Seq<Juror>, c: int)
    ensures
        (jury_scan(jurors, c) is Unanimous) <==> (forall|j: int|
            0 <= j < jurors.len() ==> (#[trigger] jurors[j]).choice is Some
                && jurors[j].choice.unwrap() == c),
    decreases jurors.len(),
{
    if jurors.len() > 0 {
        lemma_jury_unanimous_iff(jurors.drop_first(), c);
        assert forall|j: int| 0 <= j < jurors.len() - 1 implies jurors.drop_first()[j]
            == (#[trigger] jurors[j + 1]) by {}
        if jurors.first().choice is Some && jurors.first().choice.unwrap() == c {
            if jury_scan(jurors, c) is Unanimous {
                assert forall|j: int| 0 <= j < jurors.len() implies (
                #[trigger] jurors[j]).choice is Some && jurors[j].choice.unwrap() == c by {
                    if j > 0 {
                        assert(jurors[j] == jurors.drop_first()[j - 1]);
                    }
                }
            }
        }
    }
}

/// Truncating division by 100 is superadditive: splitting before dividing
/// loses at least as much to truncation.
proof fn lemma_div100_superadditive(a: int, b: int)
    requires
        0 <= a,
        0 <= b,
    ensures
        a / 100 + b / 100 <= (a + b) / 100,
{
    lemma_fundamental_div_mod(a, 100);
    lemma_fundamental_div_mod(b, 100);
    lemma_mod_division_less_than_divisor(a, 100);
    lemma_mod_division_less_than_divisor(b, 100);
    assert(100 * (a / 100 + b / 100) <= a + b);
    lemma_div_multiples_vanish(a / 100 + b / 100, 100);
    lemma_div_is_ordered(100 * (a / 100 + b / 100), a + b, 100);
}

/// The jury is never overpaid: when the jurors' shares sum to at most 100
/// percent, the independently truncated rewards sum to at most the total
/// stake, so the voters' pool `total - rewards` never underflows.
pub proof fn lemma_jury_rewards_bounded(jurors: Seq<Juror>, total: int)
    requires
        0 <= total,
        sum_juror_pcts(jurors) <= 100,
    ensures
        0 <= sum_juror_rewards(jurors, total) <= total,
        sum_juror_rewards(jurors, total) <= sum_juror_pcts(jurors) * total / 100,
{
    lemma_sum_juror_rewards_nonneg(jurors, total);
    lemma_sum_rewards_le_sum_pcts(jurors, total);
    let p = sum_juror_pcts(jurors);
    assert(p * total <= 100 * total) by (nonlinear_arith)
        requires
            0 <= total,
            p <= 100,
    ;
    lemma_div_is_ordered(p * total, 100 * total, 100);
    lemma_div_multiples_vanish(total, 100);
}

/// The sum of the independently truncated rewards never exceeds the jointly
/// truncated reward of the summed shares.
proof fn lemma_sum_rewards_le_sum_pcts(jurors: Seq<Juror>, total: int)
    requires
        0 <= total,
    ensures
        sum_juror_rewards(jurors, total) <= sum_juror_pcts(jurors) * total / 100,
    decreases jurors.len(),
{
    if jurors.len() == 0 {
    } else {
        let rest = jurors.drop_last();
        lemma_sum_rewards_le_sum_pcts(rest, total);
        lemma_sum_juror_pcts_nonneg(rest);
        let a = sum_juror_pcts(rest) * total;
        let b = jurors.last().pct * total;
        assert(a >= 0 && b >= 0 && a + b == sum_juror_pcts(jurors) * total) by (nonlinear_arith)
            requires
                0 <= total,
                0 <= sum_juror_pcts(rest),
                0 <= jurors.last().pct,
                a == sum_juror_pcts(rest) * total,
                b == jurors.last().pct * total,
                sum_juror_pcts(jurors) == sum_juror_pcts(rest) + jurors.last().pct,
        ;
        lemma_div100_superadditive(a, b);
    }
}

/// The jurors' percentage shares sum to something non-negative.
pub proof fn lemma_sum_juror_pcts_nonneg(jurors: Seq<Juror>)
    ensures
        0 <= sum_juror_pcts(jurors),
    decreases jurors.len(),
{
    if jurors.len() > 0 {
        lemma_sum_juror_pcts_nonneg(jurors.drop_last());
    }
}

/// Recording a choice on a juror changes no percentage share, so the
/// summed shares of the records a decision leaves are the registered ones.
pub proof fn lemma_sum_juror_pcts_update(jurors: Seq<Juror>, i: int, j2: Juror)
    requires
        0 <= i < jurors.len(),
        j2.pct == jurors[i].pct,
    ensures
        sum_juror_pcts(jurors.update(i, j2)) == sum_juror_pcts(jurors),
    decreases jurors.len(),
{
    let upd = jurors.update(i, j2);
    if i == jurors.len() - 1 {
        assert(upd.drop_last() =~= jurors.drop_last());
    } else {
        assert(upd.drop_last() =~= jurors.drop_last().update(i, j2));
        lemma_sum_juror_pcts_update(jurors.drop_last(), i, j2);
    }
}

/// A decision's payout arithmetic always goes through when the registered
/// jurors' shares sum to at most 100 percent and a one-percent share of the
/// stake fits the amount type with room for the factor of 100.
pub proof fn lemma_payout_fits_from_pcts(
    s: State,
    sender: Seq<char>,
    choice_index: int,
    logs: String,
)
    requires
        s.wf(),
        juror_index(s.jurors@, sender) != -1,
        sum_juror_pcts(s.jurors@) <= 100,
        100 * trial_total(s) <= u128::MAX,
    ensures
        decide_payout_fits(s, sender, choice_index, logs),
{
    let jix = juror_index(s.jurors@, sender);
    crate::models::lemma_juror_index(s.jurors@, sender);
    let jurors1 = recorded_jurors(s, sender, choice_index, logs);
    let total = trial_total(s);
    assert(total >= 0) by (nonlinear_arith)
        requires
            total == s.trial.price * s.trial.weight,
            s.trial.price >= 0,
            s.trial.weight >= 0,
    ;
    lemma_sum_juror_pcts_update(s.jurors@, jix, jurors1[jix]);
    lemma_jury_rewards_bounded(jurors1, total);
    lemma_sum_juror_pcts_nonneg(jurors1);
    assert forall|k: int| 0 <= k < jurors1.len() implies (#[trigger] jurors1[k]).pct * total
        <= u128::MAX by {
        lemma_juror_pct_le_sum(jurors1, k);
        let p = jurors1[k].pct as int;
        assert(p * total <= 100 * total) by (nonlinear_arith)
            requires
                0 <= total,
                p <= 100,
        ;
    }
}

/// One juror's share never exceeds the summed shares.
pub proof fn lemma_juror_pct_le_sum(jurors: Seq<Juror>, k: int)
    requires
        0 <= k < jurors.len(),
    ensures
        jurors[k].pct <= sum_juror_pcts(jurors),
    decreases jurors.len(),
{
    lemma_sum_juror_pcts_nonneg(jurors.drop_last());
    if k < jurors.len() - 1 {
        lemma_juror_pct_le_sum(jurors.drop_last(), k);
    }
}

/// What a finalizing decision disburses to the jury is exactly the sum of
/// the per-juror truncated rewards: the instruction list it emits carries
/// that sum, and together with the persisted voters' pool it accounts for
/// the whole total stake.
pub proof fn lemma_jury_disbursement(
    jurors: Seq<Juror>,
    token: Token,
    contract_addr: String,
    total: int,
)
    requires
        0 <= total,
        forall|k: int| 0 <= k < jurors.len() ==> (#[trigger] jurors[k]).pct * total <= u128::MAX,
    ensures
        crate::response::sum_transfer_amounts(
            jury_reward_msgs(jurors, token, contract_addr, total),
        ) == sum_juror_rewards(jurors, total),
    decreases jurors.len(),
{
    if jurors.len() > 0 {
        assert(forall|k: int|
            0 <= k < jurors.drop_last().len() ==> (#[trigger] jurors.drop_last()[k]).pct * total
                <= u128::MAX);
        lemma_jury_disbursement(jurors.drop_last(), token, contract_addr, total);
        let j = jurors.last();
        assert(j.pct * total <= u128::MAX);
        assert(0 <= juror_reward(j.pct, total) <= j.pct * total) by {
            lemma_div_is_ordered(0, j.pct * total, 100);
            lemma_fundamental_div_mod(j.pct * total, 100);
            lemma_mod_division_less_than_divisor(j.pct * total, 100);
            assert(j.pct * total >= 0) by (nonlinear_arith)
                requires
                    j.pct >= 0,
                    total >= 0,
            ;
        }
        let rest = jury_reward_msgs(jurors.drop_last(), token, contract_addr, total);
        let m = crate::execute::jury_reward_msg(j, token, contract_addr, total);
        assert(rest.push(m).drop_last() =~= rest);
        assert(transfer_amount(m) == juror_reward(j.pct, total)) by {
            match token {
                Token::Native { denom } => {},
                Token::Cw20 { address } => {},
            }
        }
    }
}

} // verus!

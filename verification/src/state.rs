//! The persistent store of one trial, as an explicit value handed into every
//! engine operation: the `Trial` aggregate, the vote records, the juror
//! records, the claim ledger and the voters' reward pool, together with the
//! well-formedness invariant that every engine preserves.

use vstd::prelude::*;

use crate::models::{
    juror_index, jurors_sorted, lemma_juror_index, lemma_seq_char_lt_irrefl,
    lemma_seq_char_lt_trans, lemma_seq_char_lt_trichotomy, seq_char_lt, string_lt,
    sum_choice_weights, Choice, Juror, Status, Trial, Vote,
};
use crate::msg::{InstantiateMsg, JurorIntiatiationParams};

verus! {

/// Auxiliary contract state, kept for compatibility with the host schema.
#[derive(Debug, PartialEq)]
pub struct Something {
    pub value: Option<String>,
}

/// One wallet's vote record for one choice. The pair of the choice index
/// inside `vote` and the voter identity is the record's key; the store holds
/// at most one record per key.
#[derive(Debug, PartialEq)]
pub struct VoteEntry {
    pub voter: String,
    pub vote: Vote,
}

/// The whole persistent state of one trial. Each engine call is a single
/// read-modify-write transaction against a value of this type: on success
/// the mutations take effect together, on any error the state is unchanged.
#[derive(Debug, PartialEq)]
pub struct State {
    pub trial: Trial,
    pub votes: Vec<VoteEntry>,
    pub jurors: Vec<Juror>,
    pub has_claimed: Vec<String>,
    pub voters_claim_amount: Option<u128>,
    pub cancel_reason: Option<String>,
}

/// Sum of the weights of the vote records for the choice `c`.
pub open spec fn sum_votes_for_choice(votes: Seq<VoteEntry>, c: int) -> int
    decreases votes.len(),
{
    if votes.len() == 0 {
        0
    } else {
        sum_votes_for_choice(votes.drop_last(), c) + if votes.last().vote.choice == c {
            votes.last().vote.weight as int
        } else {
            0
        }
    }
}

/// Sum of the weights a single wallet has committed, across all choices.
pub open spec fn voter_weight(votes: Seq<VoteEntry>, voter: Seq<char>) -> int
    decreases votes.len(),
{
    if votes.len() == 0 {
        0
    } else {
        voter_weight(votes.drop_last(), voter) + if votes.last().voter@ == voter {
            votes.last().vote.weight as int
        } else {
            0
        }
    }
}

/// Sum of the weights of all vote records.
pub open spec fn total_votes_weight(votes: Seq<VoteEntry>) -> int
    decreases votes.len(),
{
    if votes.len() == 0 {
        0
    } else {
        total_votes_weight(votes.drop_last()) + votes.last().vote.weight
    }
}

/// Index of the vote record keyed by choice `c` and the given voter, or -1
/// when the wallet has no record for that choice.
pub open spec fn vote_index(votes: Seq<VoteEntry>, c: int, voter: Seq<char>) -> int
    decreases votes.len(),
{
    if votes.len() == 0 {
        -1
    } else if votes.first().vote.choice == c && votes.first().voter@ == voter {
        0
    } else {
        let rest = vote_index(votes.drop_first(), c, voter);
        if rest == -1 {
            -1
        } else {
            rest + 1
        }
    }
}

impl State {
    /// The vote records are keyed consistently: every record points at an
    /// existing choice, carries funded weight, and no key repeats.
    pub open spec fn votes_wf(self) -> bool {
        &&& forall|i: int|
            0 <= i < self.votes@.len() ==> (#[trigger] self.votes@[i]).vote.choice
                < self.trial.choices@.len()
        &&& forall|i: int| 0 <= i < self.votes@.len() ==> (#[trigger] self.votes@[i]).vote.weight >= 1
        &&& forall|i: int, j: int|
            0 <= i < j < self.votes@.len() ==> !((#[trigger] self.votes@[i]).vote.choice
                == (#[trigger] self.votes@[j]).vote.choice && self.votes@[i].voter@
                == self.votes@[j].voter@)
    }

    /// Well-formedness of the whole store. Instantiation establishes it and
    /// every engine preserves it; among its clauses are the two accounting
    /// invariants: the trial's cumulative weight equals the sum of the
    /// choices' weights, and each choice's weight equals the sum of the vote
    /// records cast for it.
    pub open spec fn wf(self) -> bool {
        &&& self.votes_wf()
        &&& self.trial.choices@.len() <= u32::MAX
        &&& self.trial.weight == sum_choice_weights(self.trial.choices@)
        &&& forall|c: int|
            0 <= c < self.trial.choices@.len() ==> (#[trigger] self.trial.choices@[c]).weight
                == sum_votes_for_choice(self.votes@, c)
        &&& forall|c: int|
            0 <= c < self.trial.choices@.len() ==> (#[trigger] self.trial.choices@[c]).tally
                <= self.trial.choices@[c].weight
        &&& self.trial.price * self.trial.weight <= u128::MAX
        &&& jurors_sorted(self.jurors@)
        &&& forall|i: int, j: int|
            0 <= i < j < self.jurors@.len() ==> (#[trigger] self.jurors@[i]).address@
                != (#[trigger] self.jurors@[j]).address@
        &&& self.trial.status is HasVerdict ==> self.trial.winner.is_some()
            && self.trial.winner.unwrap() < self.trial.choices@.len()
        &&& self.trial.status is HasVerdict ==> self.voters_claim_amount.is_some()
        &&& forall|i: int, j: int|
            0 <= i < j < self.has_claimed@.len() ==> (#[trigger] self.has_claimed@[i])@
                != (#[trigger] self.has_claimed@[j])@
    }
}

/// The sum of the vote weights for a choice is never negative.
pub proof fn lemma_svc_nonneg(votes: Seq<VoteEntry>, c: int)
    ensures
        0 <= sum_votes_for_choice(votes, c),
    decreases votes.len(),
{
    if votes.len() > 0 {
        lemma_svc_nonneg(votes.drop_last(), c);
    }
}

/// Appending a vote record adds its weight to the sum for its choice and
/// leaves the sums for the other choices unchanged.
pub proof fn lemma_svc_push(votes: Seq<VoteEntry>, e: VoteEntry, c: int)
    ensures
        sum_votes_for_choice(votes.push(e), c) == sum_votes_for_choice(votes, c) + if e.vote.choice
            == c {
            e.vote.weight as int
        } else {
            0
        },
{
    assert(votes.push(e).drop_last() =~= votes);
}

/// Replacing one vote record changes the per-choice sums by the difference
/// between the records at that position.
pub proof fn lemma_svc_update(votes: Seq<VoteEntry>, i: int, e: VoteEntry, c: int)
    requires
        0 <= i < votes.len(),
    ensures
        sum_votes_for_choice(votes.update(i, e), c) == sum_votes_for_choice(votes, c) - (
        if votes[i].vote.choice == c {
            votes[i].vote.weight as int
        } else {
            0
        }) + (
        if e.vote.choice == c {
            e.vote.weight as int
        } else {
            0
        }),
    decreases votes.len(),
{
    let upd = votes.update(i, e);
    if i == votes.len() - 1 {
        assert(upd.drop_last() =~= votes.drop_last());
    } else {
        assert(upd.drop_last() =~= votes.drop_last().update(i, e));
        lemma_svc_update(votes.drop_last(), i, e, c);
    }
}

/// One vote record's weight never exceeds the sum of the vote weights for
/// its choice.
pub proof fn lemma_vote_entry_le_svc(votes: Seq<VoteEntry>, i: int)
    requires
        0 <= i < votes.len(),
    ensures
        votes[i].vote.weight <= sum_votes_for_choice(votes, votes[i].vote.choice as int),
    decreases votes.len(),
{
    lemma_svc_nonneg(votes.drop_last(), votes[i].vote.choice as int);
    if i < votes.len() - 1 {
        lemma_vote_entry_le_svc(votes.drop_last(), i);
    }
}

/// Sum of the per-choice vote-weight sums over the choices below `n`.
pub open spec fn svc_prefix_sum(votes: Seq<VoteEntry>, n: int) -> int
    decreases n,
{
    if n <= 0 {
        0
    } else {
        svc_prefix_sum(votes, n - 1) + sum_votes_for_choice(votes, n - 1)
    }
}

/// With no vote records every per-choice sum is zero.
pub proof fn lemma_svc_prefix_sum_empty(votes: Seq<VoteEntry>, n: int)
    requires
        votes.len() == 0,
    ensures
        svc_prefix_sum(votes, n) == 0,
    decreases n,
{
    if n > 0 {
        lemma_svc_prefix_sum_empty(votes, n - 1);
    }
}

/// Dropping the last vote record removes exactly its weight from the
/// per-choice sums below `n`, provided its choice lies below `n`.
pub proof fn lemma_svc_prefix_sum_drop_last(votes: Seq<VoteEntry>, n: int)
    requires
        votes.len() > 0,
    ensures
        svc_prefix_sum(votes, n) == svc_prefix_sum(votes.drop_last(), n) + if 0 <= votes.last().vote.choice
            < n {
            votes.last().vote.weight as int
        } else {
            0
        },
    decreases n,
{
    if n > 0 {
        lemma_svc_prefix_sum_drop_last(votes, n - 1);
    }
}

/// When every record's choice lies below `n`, the records' total weight is
/// the sum of the per-choice sums below `n`.
pub proof fn lemma_total_votes_weight_eq_prefix(votes: Seq<VoteEntry>, n: int)
    requires
        forall|i: int| 0 <= i < votes.len() ==> (#[trigger] votes[i]).vote.choice < n,
    ensures
        total_votes_weight(votes) == svc_prefix_sum(votes, n),
    decreases votes.len(),
{
    if votes.len() == 0 {
        lemma_svc_prefix_sum_empty(votes, n);
    } else {
        assert(forall|i: int|
            0 <= i < votes.drop_last().len() ==> (#[trigger] votes.drop_last()[i]).vote.choice
                < n);
        lemma_total_votes_weight_eq_prefix(votes.drop_last(), n);
        lemma_svc_prefix_sum_drop_last(votes, n);
        assert(votes[votes.len() - 1].vote.choice < n);
    }
}

/// When each choice's weight equals the sum of the votes cast for it, the
/// sum of the choices' weights is the sum of the per-choice vote sums.
pub proof fn lemma_sum_choice_weights_eq_prefix(choices: Seq<Choice>, votes: Seq<VoteEntry>)
    requires
        forall|c: int|
            0 <= c < choices.len() ==> (#[trigger] choices[c]).weight == sum_votes_for_choice(
                votes,
                c,
            ),
    ensures
        sum_choice_weights(choices) == svc_prefix_sum(votes, choices.len() as int),
    decreases choices.len(),
{
    if choices.len() > 0 {
        assert(forall|c: int|
            0 <= c < choices.drop_last().len() ==> (#[trigger] choices.drop_last()[c]).weight
                == sum_votes_for_choice(votes, c));
        lemma_sum_choice_weights_eq_prefix(choices.drop_last(), votes);
        assert(choices[choices.len() - 1].weight == sum_votes_for_choice(
            votes,
            choices.len() - 1,
        ));
    }
}

/// One wallet's weight never exceeds the total weight of all records.
pub proof fn lemma_voter_weight_le_total(votes: Seq<VoteEntry>, voter: Seq<char>)
    ensures
        voter_weight(votes, voter) <= total_votes_weight(votes),
    decreases votes.len(),
{
    if votes.len() > 0 {
        lemma_voter_weight_le_total(votes.drop_last(), voter);
    }
}

/// A prefix of the records never carries more of a wallet's weight than all
/// of them.
pub proof fn lemma_voter_weight_take_le(votes: Seq<VoteEntry>, voter: Seq<char>, i: int)
    requires
        0 <= i <= votes.len(),
    ensures
        voter_weight(votes.take(i), voter) <= voter_weight(votes, voter),
    decreases votes.len(),
{
    if i == votes.len() {
        assert(votes.take(i) =~= votes);
    } else {
        assert(votes.drop_last().take(i) =~= votes.take(i));
        lemma_voter_weight_take_le(votes.drop_last(), voter, i);
    }
}

impl State {
    /// In a well-formed store, one wallet's weight never exceeds the
    /// trial's cumulative weight.
    pub proof fn lemma_voter_weight_bound(self, voter: Seq<char>)
        requires
            self.wf(),
        ensures
            voter_weight(self.votes@, voter) <= self.trial.weight,
    {
        lemma_voter_weight_le_total(self.votes@, voter);
        lemma_total_votes_weight_eq_prefix(self.votes@, self.trial.choices@.len() as int);
        lemma_sum_choice_weights_eq_prefix(self.trial.choices@, self.votes@);
    }
}

/// The wallet already withdrew its settlement: its identity stands in the
/// claim ledger.
pub open spec fn claimed(ledger: Seq<String>, voter: Seq<char>) -> bool {
    exists|i: int| 0 <= i < ledger.len() && (#[trigger] ledger[i])@ == voter
}

/// Whether the wallet's identity stands in the claim ledger.
pub fn ledger_contains(ledger: &Vec<String>, voter: &String) -> (r: bool)
    ensures
        r == claimed(ledger@, voter@),
{
    let mut i: usize = 0;
    while i < ledger.len()
        invariant
            i <= ledger@.len(),
            forall|k: int| 0 <= k < i ==> (#[trigger] ledger@[k])@ != voter@,
        decreases ledger@.len() - i,
    {
        if ledger[i] == *voter {
            return true;
        }
        i = i + 1;
    }
    false
}

/// What the index that `vote_index` finds means: -1 exactly when no record
/// carries the key, and otherwise the first record that does.
pub proof fn lemma_vote_index(votes: Seq<VoteEntry>, c: int, voter: Seq<char>)
    ensures
        vote_index(votes, c, voter) == -1 ==> forall|k: int|
            0 <= k < votes.len() ==> !((#[trigger] votes[k]).vote.choice == c && votes[k].voter@
                == voter),
        vote_index(votes, c, voter) != -1 ==> {
            let i = vote_index(votes, c, voter);
            &&& 0 <= i < votes.len()
            &&& votes[i].vote.choice == c
            &&& votes[i].voter@ == voter
            &&& forall|k: int|
                0 <= k < i ==> !((#[trigger] votes[k]).vote.choice == c && votes[k].voter@
                    == voter)
        },
    decreases votes.len(),
{
    if votes.len() == 0 {
    } else if votes.first().vote.choice == c && votes.first().voter@ == voter {
    } else {
        lemma_vote_index(votes.drop_first(), c, voter);
        assert forall|k: int| 1 <= k < votes.len() implies votes.drop_first()[k - 1]
            == (#[trigger] votes[k]) by {}
    }
}

/// Find the vote record keyed by choice `c` and the given voter.
pub fn find_vote(votes: &Vec<VoteEntry>, c: u32, voter: &String) -> (r: Option<usize>)
    ensures
        r is None <==> vote_index(votes@, c as int, voter@) == -1,
        r matches Some(i) ==> vote_index(votes@, c as int, voter@) == i,
{
    proof {
        lemma_vote_index(votes@, c as int, voter@);
    }
    let mut i: usize = 0;
    while i < votes.len()
        invariant
            i <= votes@.len(),
            forall|k: int|
                0 <= k < i ==> !((#[trigger] votes@[k]).vote.choice == c && votes@[k].voter@
                    == voter@),
        decreases votes@.len() - i,
    {
        if votes[i].vote.choice == c && votes[i].voter == *voter {
            proof {
                lemma_vote_index(votes@, c as int, voter@);
                let fi = vote_index(votes@, c as int, voter@);
                assert(fi != -1);
                assert(fi == i);
            }
            return Some(i);
        }
        i = i + 1;
    }
    proof {
        lemma_vote_index(votes@, c as int, voter@);
        let fi = vote_index(votes@, c as int, voter@);
        if fi != -1 {
            assert(false);
        }
    }
    None
}

/// The juror record a registration parameter creates.
pub open spec fn fresh_juror(p: JurorIntiatiationParams) -> Juror {
    Juror {
        address: p.address,
        name: p.name,
        url: p.url,
        choice: None,
        logs: None,
        pct: p.pct,
    }
}

/// Where a new identity belongs among the records: the first position whose
/// record does not order strictly before it.
pub open spec fn juror_insert_pos(jurors: Seq<Juror>, address: Seq<char>) -> int
    decreases jurors.len(),
{
    if jurors.len() == 0 {
        0
    } else if seq_char_lt(jurors.first().address@, address) {
        1 + juror_insert_pos(jurors.drop_first(), address)
    } else {
        0
    }
}

/// What the position that `juror_insert_pos` finds means: every record
/// before it orders strictly before the identity, and the record at it, if
/// any, does not.
pub proof fn lemma_juror_insert_pos(jurors: Seq<Juror>, address: Seq<char>)
    ensures
        0 <= juror_insert_pos(jurors, address) <= jurors.len(),
        forall|k: int|
            0 <= k < juror_insert_pos(jurors, address) ==> seq_char_lt(
                (#[trigger] jurors[k]).address@,
                address,
            ),
        juror_insert_pos(jurors, address) < jurors.len() ==> !seq_char_lt(
            jurors[juror_insert_pos(jurors, address)].address@,
            address,
        ),
    decreases jurors.len(),
{
    if jurors.len() > 0 && seq_char_lt(jurors.first().address@, address) {
        lemma_juror_insert_pos(jurors.drop_first(), address);
        assert forall|k: int| 1 <= k < jurors.len() implies jurors.drop_first()[k - 1]
            == (#[trigger] jurors[k]) by {}
    }
}

/// Registering one juror: a record under a new identity is inserted at its
/// ascending-identity position, a record under an already registered
/// identity replaces the earlier one in place.
pub open spec fn register_juror(jurors: Seq<Juror>, p: JurorIntiatiationParams) -> Seq<Juror> {
    let i = crate::models::juror_index(jurors, p.address@);
    if i == -1 {
        jurors.insert(juror_insert_pos(jurors, p.address@), fresh_juror(p))
    } else {
        jurors.update(i, fresh_juror(p))
    }
}

/// The juror records that registering the given parameters in order leaves:
/// a sequence in strictly ascending identity order, whatever order the
/// parameters came in.
pub open spec fn registered_jurors(params: Seq<JurorIntiatiationParams>) -> Seq<Juror>
    decreases params.len(),
{
    if params.len() == 0 {
        Seq::empty()
    } else {
        register_juror(registered_jurors(params.drop_last()), params.last())
    }
}

/// Initialize contract state data: the trial starts `Active` with zeroed
/// choices and no winner, the jury is registered with no choices recorded
/// and kept in strictly ascending identity order whatever order the
/// parameters came in, and the vote records, claim ledger and reward pool
/// start empty.
pub fn initialize(sender: &String, msg: &InstantiateMsg) -> (s: State)
    requires
        msg.choices@.len() <= u32::MAX,
    ensures
        s.wf(),
        s.trial.owner == *sender,
        s.trial.prompt == msg.prompt,
        s.trial.verdict == msg.verdict,
        s.trial.status is Active,
        s.trial.token == msg.token,
        s.trial.price == msg.price,
        s.trial.style == msg.style,
        s.trial.weight == 0,
        s.trial.winner is None,
        s.trial.choices@.len() == msg.choices@.len(),
        forall|i: int|
            0 <= i < msg.choices@.len() ==> {
                &&& (#[trigger] s.trial.choices@[i]).text == msg.choices@[i]
                &&& s.trial.choices@[i].tally == 0
                &&& s.trial.choices@[i].weight == 0
            },
        s.jurors@ == registered_jurors(msg.jury@),
        s.votes@.len() == 0,
        s.has_claimed@.len() == 0,
        s.voters_claim_amount is None,
        s.cancel_reason is None,
{
    let mut choices: Vec<Choice> = Vec::new();
    let mut i: usize = 0;
    while i < msg.choices.len()
        invariant
            i <= msg.choices@.len(),
            choices@.len() == i,
            forall|k: int|
                0 <= k < i ==> {
                    &&& (#[trigger] choices@[k]).text == msg.choices@[k]
                    &&& choices@[k].tally == 0
                    &&& choices@[k].weight == 0
                },
            sum_choice_weights(choices@) == 0,
        decreases msg.choices@.len() - i,
    {
        let ghost before = choices@;
        choices.push(Choice { text: msg.choices[i].clone(), tally: 0, weight: 0 });
        proof {
            assert(choices@.drop_last() =~= before);
        }
        i = i + 1;
    }

    let mut jurors: Vec<Juror> = Vec::new();
    let mut j: usize = 0;
    while j < msg.jury.len()
        invariant
            j <= msg.jury@.len(),
            jurors@ == registered_jurors(msg.jury@.take(j as int)),
            jurors_sorted(jurors@),
            forall|a: int, b: int|
                0 <= a < b < jurors@.len() ==> (#[trigger] jurors@[a]).address@
                    != (#[trigger] jurors@[b]).address@,
        decreases msg.jury@.len() - j,
    {
        let p = &msg.jury[j];
        let record = Juror {
            address: p.address.clone(),
            name: p.name.clone(),
            url: crate::models::clone_opt_string(&p.url),
            choice: None,
            logs: None,
            pct: p.pct,
        };
        let ghost before = jurors@;
        proof {
            assert(record == fresh_juror(msg.jury@[j as int]));
            lemma_juror_index(before, p.address@);
            lemma_juror_insert_pos(before, p.address@);
        }
        // find the record's ascending-identity position
        let mut idx: usize = 0;
        while idx < jurors.len()
            invariant_except_break
                idx <= before.len(),
                jurors@ == before,
                forall|k: int|
                    0 <= k < idx ==> seq_char_lt((#[trigger] before[k]).address@, p.address@),
            ensures
                idx <= before.len(),
                jurors@ == before,
                forall|k: int|
                    0 <= k < idx ==> seq_char_lt((#[trigger] before[k]).address@, p.address@),
                idx < before.len() ==> !seq_char_lt(before[idx as int].address@, p.address@),
            decreases before.len() - idx,
        {
            if !string_lt(&jurors[idx].address, &p.address) {
                break ;
            }
            idx = idx + 1;
        }
        let ghost pos = juror_insert_pos(before, p.address@);
        proof {
            if pos < idx {
                assert(seq_char_lt(before[pos].address@, p.address@));
                assert(false);
            }
            if idx < pos {
                assert(seq_char_lt(before[idx as int].address@, p.address@));
                assert(false);
            }
            assert(pos == idx);
            assert forall|k: int| 0 <= k < idx implies (#[trigger] before[k]).address@
                != p.address@ by {
                if before[k].address@ == p.address@ {
                    lemma_seq_char_lt_irrefl(p.address@);
                }
            }
        }
        if idx < jurors.len() && jurors[idx].address == p.address {
            // the identity is already registered: overwrite its record
            jurors[idx] = record;
            proof {
                let f = juror_index(before, p.address@);
                if f == -1 {
                    assert(before[idx as int].address@ != p.address@);
                    assert(false);
                }
                assert(f == idx);
                assert(jurors@ == register_juror(before, msg.jury@[j as int]));
                assert forall|a: int, b: int| 0 <= a < b < jurors@.len() implies seq_char_lt(
                    (#[trigger] jurors@[a]).address@,
                    (#[trigger] jurors@[b]).address@,
                ) by {
                    assert(jurors@[a].address@ == before[a].address@);
                    assert(jurors@[b].address@ == before[b].address@);
                }
                assert forall|a: int, b: int| 0 <= a < b < jurors@.len() implies (
                #[trigger] jurors@[a]).address@ != (#[trigger] jurors@[b]).address@ by {
                    assert(jurors@[a].address@ == before[a].address@);
                    assert(jurors@[b].address@ == before[b].address@);
                }
            }
        } else {
            // a new identity: insert it at its ascending position
            proof {
                if idx < before.len() {
                    lemma_seq_char_lt_trichotomy(before[idx as int].address@, p.address@);
                    assert(seq_char_lt(p.address@, before[idx as int].address@));
                }
                let f = juror_index(before, p.address@);
                if f != -1 {
                    assert(before[f].address@ == p.address@);
                    assert(f >= idx);
                    assert(idx < before.len());
                    if f == idx {
                        assert(false);
                    } else {
                        assert(seq_char_lt(
                            before[idx as int].address@,
                            before[f].address@,
                        ));
                        lemma_seq_char_lt_trans(
                            p.address@,
                            before[idx as int].address@,
                            before[f].address@,
                        );
                        lemma_seq_char_lt_irrefl(p.address@);
                        assert(false);
                    }
                }
                before.insert_ensures(pos, record);
            }
            jurors.insert(idx, record);
            proof {
                assert(jurors@ == register_juror(before, msg.jury@[j as int]));
                assert forall|a: int, b: int| 0 <= a < b < jurors@.len() implies seq_char_lt(
                    (#[trigger] jurors@[a]).address@,
                    (#[trigger] jurors@[b]).address@,
                ) by {
                    let ia = idx as int;
                    if a < ia && b < ia {
                        assert(jurors@[a] == before[a]);
                        assert(jurors@[b] == before[b]);
                    } else if a < ia && b == ia {
                        assert(jurors@[a] == before[a]);
                        assert(jurors@[b] == record);
                    } else if a < ia && b > ia {
                        assert(jurors@[a] == before[a]);
                        assert(jurors@[b] == before[b - 1]);
                        if b - 1 == a {
                            assert(false);
                        }
                    } else if a == ia && b > ia {
                        assert(jurors@[a] == record);
                        assert(jurors@[b] == before[b - 1]);
                        if b - 1 == ia {
                            assert(seq_char_lt(p.address@, before[b - 1].address@));
                        } else {
                            assert(seq_char_lt(
                                before[ia].address@,
                                before[b - 1].address@,
                            ));
                            lemma_seq_char_lt_trans(
                                p.address@,
                                before[ia].address@,
                                before[b - 1].address@,
                            );
                        }
                    } else {
                        assert(jurors@[a] == before[a - 1]);
                        assert(jurors@[b] == before[b - 1]);
                    }
                }
                assert forall|a: int, b: int| 0 <= a < b < jurors@.len() implies (
                #[trigger] jurors@[a]).address@ != (#[trigger] jurors@[b]).address@ by {
                    if jurors@[a].address@ == jurors@[b].address@ {
                        lemma_seq_char_lt_irrefl(jurors@[a].address@);
                    }
                }
            }
        }
        proof {
            assert(msg.jury@.take(j + 1).drop_last() =~= msg.jury@.take(j as int));
            assert(msg.jury@.take(j + 1).last() == msg.jury@[j as int]);
        }
        j = j + 1;
    }
    proof {
        assert(msg.jury@.take(msg.jury@.len() as int) =~= msg.jury@);
    }

    State {
        trial: Trial {
            owner: sender.clone(),
            prompt: msg.prompt.clone(),
            choices,
            verdict: msg.verdict.clone(),
            status: Status::Active,
            token: msg.token.clone(),
            price: msg.price,
            style: msg.style.clone(),
            weight: 0,
            winner: None,
        },
        votes: Vec::new(),
        jurors,
        has_claimed: Vec::new(),
        voters_claim_amount: None,
        cancel_reason: None,
    }
}

} // verus!

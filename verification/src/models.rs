//! The persistent records of one trial: the aggregate `Trial` with its
//! `Choice` list and `Verdict` descriptor, the `Juror` records, and the
//! per-wallet `Vote` record, together with the spec-level sums and the jury
//! agreement scan that the engine contracts are stated over.

use vstd::prelude::*;

verus! {

/// Lifecycle of a trial. `Active` admits votes; `Deliberating` admits juror
/// decisions; the three remaining states are terminal.
#[derive(Clone, Copy, Debug, PartialEq, Eq, Structural)]
pub enum Status {
    Active,
    Deliberating,
    HasVerdict,
    HungJury,
    Dismissed,
}

/// Cumulative weight one wallet has committed to one choice.
#[derive(Clone, Copy, Debug, PartialEq, Eq, Structural)]
pub struct Vote {
    pub choice: u32,
    pub weight: u32,
}

/// The asset a trial is funded with: a native ledger denomination or a
/// fungible-token contract reference.
#[derive(Debug, PartialEq)]
pub enum Token {
    Native { denom: String },
    Cw20 { address: String },
}

/// One selectable outcome: its label, the count of vote casts and the sum of
/// the weights cast for it.
#[derive(Debug, PartialEq)]
pub struct Choice {
    pub text: String,
    pub tally: u32,
    pub weight: u32,
}

/// Display background; opaque to the engines.
#[derive(Debug, PartialEq)]
pub enum Background {
    Value(String),
    Video { provider: String, id: String },
}

/// Display font; opaque to the engines.
#[derive(Debug, PartialEq)]
pub struct Font {
    pub family: String,
    pub color: String,
}

/// Language tag of the verdict script.
#[derive(Clone, Copy, Debug, PartialEq, Eq, Structural)]
pub enum ProgrammingLanguage {
    Python,
    TypeScript,
    Rust,
    Bash,
}

/// The off-chain computation the jury evaluates: a script reference and the
/// deliberation window. `start` is a host timestamp in nanoseconds and
/// `minutes` the window length, converted to seconds when the deadline is
/// checked.
#[derive(Debug, PartialEq)]
pub struct Verdict {
    pub script: String,
    pub language: ProgrammingLanguage,
    pub start: u64,
    pub minutes: u32,
}

/// Display style; opaque to the engines.
#[derive(Debug, PartialEq)]
pub struct Style {
    pub background: Background,
    pub font: Font,
}

/// A fixed-at-creation adjudicator: identity, display data, the recorded
/// choice and execution logs (absent until the juror decides), and the
/// juror's percentage share of the total stake.
#[derive(Debug, PartialEq)]
pub struct Juror {
    pub address: String,
    pub name: String,
    pub url: Option<String>,
    pub choice: Option<u32>,
    pub logs: Option<String>,
    pub pct: u8,
}

/// The aggregate root describing one voting-and-adjudication round.
/// `weight` is the cumulative funded weight; the store invariant keeps it
/// equal to the sum of the choices' weights.
#[derive(Debug, PartialEq)]
pub struct Trial {
    pub owner: String,
    pub prompt: String,
    pub choices: Vec<Choice>,
    pub verdict: Verdict,
    pub status: Status,
    pub token: Token,
    pub price: u128,
    pub style: Style,
    pub weight: u32,
    pub winner: Option<u32>,
}

impl Trial {
    /// The trial admits votes.
    pub fn is_active(&self) -> (r: bool)
        ensures
            r == (self.status is Active),
    {
        self.status == Status::Active
    }

    /// The trial admits juror decisions.
    pub fn is_in_deliberations(&self) -> (r: bool)
        ensures
            r == (self.status is Deliberating),
    {
        self.status == Status::Deliberating
    }

    /// The jury reached unanimous agreement and a winner is set.
    pub fn has_verdict(&self) -> (r: bool)
        ensures
            r == (self.status is HasVerdict),
    {
        self.status == Status::HasVerdict
    }

    /// The owner dismissed the trial early.
    pub fn has_been_canceled(&self) -> (r: bool)
        ensures
            r == (self.status is Dismissed),
    {
        self.status == Status::Dismissed
    }

    /// Two jurors disagreed.
    pub fn has_hung_jury(&self) -> (r: bool)
        ensures
            r == (self.status is HungJury),
    {
        self.status == Status::HungJury
    }

    /// Cancellation is only possible before the trial resolves.
    pub fn can_be_canceled(&self) -> (r: bool)
        ensures
            r == (self.status is Active || self.status is Deliberating),
    {
        self.status == Status::Active || self.status == Status::Deliberating
    }
}

impl Clone for Token {
    fn clone(&self) -> (res: Self)
        ensures
            res == *self,
    {
        match self {
            Token::Native { denom } => Token::Native { denom: denom.clone() },
            Token::Cw20 { address } => Token::Cw20 { address: address.clone() },
        }
    }
}

impl Clone for Choice {
    fn clone(&self) -> (res: Self)
        ensures
            res == *self,
    {
        Choice { text: self.text.clone(), tally: self.tally, weight: self.weight }
    }
}

impl Clone for Background {
    fn clone(&self) -> (res: Self)
        ensures
            res == *self,
    {
        match self {
            Background::Value(v) => Background::Value(v.clone()),
            Background::Video { provider, id } => Background::Video {
                provider: provider.clone(),
                id: id.clone(),
            },
        }
    }
}

impl Clone for Font {
    fn clone(&self) -> (res: Self)
        ensures
            res == *self,
    {
        Font { family: self.family.clone(), color: self.color.clone() }
    }
}

impl Clone for Verdict {
    fn clone(&self) -> (res: Self)
        ensures
            res == *self,
    {
        Verdict {
            script: self.script.clone(),
            language: self.language,
            start: self.start,
            minutes: self.minutes,
        }
    }
}

impl Clone for Style {
    fn clone(&self) -> (res: Self)
        ensures
            res == *self,
    {
        Style { background: self.background.clone(), font: self.font.clone() }
    }
}

/// A copy of an optional string, equal to the one copied.
pub fn clone_opt_string(v: &Option<String>) -> (res: Option<String>)
    ensures
        res == *v,
{
    match v {
        Some(s) => Some(s.clone()),
        None => None,
    }
}

impl Clone for Juror {
    fn clone(&self) -> (res: Self)
        ensures
            res == *self,
    {
        Juror {
            address: self.address.clone(),
            name: self.name.clone(),
            url: clone_opt_string(&self.url),
            choice: self.choice,
            logs: clone_opt_string(&self.logs),
            pct: self.pct,
        }
    }
}

/// Two trials hold the same data. `Trial` holds a vector, so the comparison
/// goes through its view.
pub open spec fn same_trial(a: Trial, b: Trial) -> bool {
    &&& a.owner == b.owner
    &&& a.prompt == b.prompt
    &&& a.choices@ == b.choices@
    &&& a.verdict == b.verdict
    &&& a.status == b.status
    &&& a.token == b.token
    &&& a.price == b.price
    &&& a.style == b.style
    &&& a.weight == b.weight
    &&& a.winner == b.winner
}

impl Clone for Trial {
    fn clone(&self) -> (res: Self)
        ensures
            same_trial(res, *self),
    {
        let mut choices: Vec<Choice> = Vec::new();
        let mut i: usize = 0;
        while i < self.choices.len()
            invariant
                i <= self.choices@.len(),
                choices@ =~= self.choices@.take(i as int),
            decreases self.choices@.len() - i,
        {
            choices.push(self.choices[i].clone());
            i = i + 1;
        }
        proof {
            assert(choices@ =~= self.choices@);
        }
        Trial {
            owner: self.owner.clone(),
            prompt: self.prompt.clone(),
            choices,
            verdict: self.verdict.clone(),
            status: self.status,
            token: self.token.clone(),
            price: self.price,
            style: self.style.clone(),
            weight: self.weight,
            winner: self.winner,
        }
    }
}

/// Sum of the `weight` fields over a sequence of choices.
pub open spec fn sum_choice_weights(choices: Seq<Choice>) -> int
    decreases choices.len(),
{
    if choices.len() == 0 {
        0
    } else {
        sum_choice_weights(choices.drop_last()) + choices.last().weight
    }
}

/// The sum of the choices' weights is never negative.
pub proof fn lemma_sum_choice_weights_nonneg(choices: Seq<Choice>)
    ensures
        0 <= sum_choice_weights(choices),
    decreases choices.len(),
{
    if choices.len() > 0 {
        lemma_sum_choice_weights_nonneg(choices.drop_last());
    }
}

/// One choice's weight never exceeds the sum of all the choices' weights.
pub proof fn lemma_choice_weight_le_sum(choices: Seq<Choice>, c: int)
    requires
        0 <= c < choices.len(),
    ensures
        choices[c].weight <= sum_choice_weights(choices),
    decreases choices.len(),
{
    lemma_sum_choice_weights_nonneg(choices.drop_last());
    if c < choices.len() - 1 {
        lemma_choice_weight_le_sum(choices.drop_last(), c);
    }
}

/// Replacing one choice changes the sum of the weights by the difference at
/// that position.
pub proof fn lemma_sum_choice_weights_update(choices: Seq<Choice>, c: int, ch: Choice)
    requires
        0 <= c < choices.len(),
    ensures
        sum_choice_weights(choices.update(c, ch)) == sum_choice_weights(choices)
            - choices[c].weight + ch.weight,
    decreases choices.len(),
{
    let upd = choices.update(c, ch);
    if c == choices.len() - 1 {
        assert(upd.drop_last() =~= choices.drop_last());
    } else {
        assert(upd.drop_last() =~= choices.drop_last().update(c, ch));
        lemma_sum_choice_weights_update(choices.drop_last(), c, ch);
    }
}

/// The end of the deliberation window, in nanoseconds: the start plus the
/// window length in minutes converted to seconds.
pub open spec fn deliberation_deadline(verdict: Verdict) -> int {
    verdict.start + 60 * verdict.minutes * 1_000_000_000
}

/// What a scan of the juror records finds, relative to one submitted choice.
/// The scan walks the records in order and stops at the first anomaly: a
/// juror who has not decided yet leaves the jury undecided, a juror whose
/// recorded choice differs hangs the jury, and if neither occurs the jury is
/// unanimous.
pub enum JuryOutcome {
    Undecided,
    Unanimous,
    Hung,
}

/// The in-order scan of the juror records against the choice `c`.
pub open spec fn jury_scan(jurors: Seq<Juror>, c: int) -> JuryOutcome
    decreases jurors.len(),
{
    if jurors.len() == 0 {
        JuryOutcome::Unanimous
    } else {
        match jurors.first().choice {
            Option::None => JuryOutcome::Undecided,
            Option::Some(d) => if d != c {
                JuryOutcome::Hung
            } else {
                jury_scan(jurors.drop_first(), c)
            },
        }
    }
}

/// A scan is insensitive to a prefix of records that already agree with the
/// submitted choice: it resolves as the scan of the rest.
pub proof fn lemma_jury_scan_skip(jurors: Seq<Juror>, c: int, k: int)
    requires
        0 <= k <= jurors.len(),
        forall|j: int|
            0 <= j < k ==> (#[trigger] jurors[j]).choice is Some && jurors[j].choice.unwrap()
                == c,
    ensures
        jury_scan(jurors, c) == jury_scan(jurors.skip(k), c),
    decreases k,
{
    if k == 0 {
        assert(jurors.skip(0) =~= jurors);
    } else {
        assert(jurors.first().choice is Some && jurors.first().choice.unwrap() == c);
        assert(jury_scan(jurors, c) == jury_scan(jurors.drop_first(), c));
        assert forall|j: int| 0 <= j < k - 1 implies (#[trigger] jurors.drop_first()[j]).choice
            is Some && jurors.drop_first()[j].choice.unwrap() == c by {
            assert(jurors.drop_first()[j] == jurors[j + 1]);
        }
        lemma_jury_scan_skip(jurors.drop_first(), c, k - 1);
        assert(jurors.drop_first().skip(k - 1) =~= jurors.skip(k));
    }
}

/// A juror's reward out of the total stake: the juror's percentage share,
/// with truncating integer division.
pub open spec fn juror_reward(pct: u8, total: int) -> int {
    pct * total / 100
}

/// Total disbursed to the jury: the sum of the per-juror rewards, each
/// truncated independently.
pub open spec fn sum_juror_rewards(jurors: Seq<Juror>, total: int) -> int
    decreases jurors.len(),
{
    if jurors.len() == 0 {
        0
    } else {
        sum_juror_rewards(jurors.drop_last(), total) + juror_reward(jurors.last().pct, total)
    }
}

/// Jury rewards are never negative when the total is not.
pub proof fn lemma_sum_juror_rewards_nonneg(jurors: Seq<Juror>, total: int)
    requires
        0 <= total,
    ensures
        0 <= sum_juror_rewards(jurors, total),
    decreases jurors.len(),
{
    if jurors.len() > 0 {
        lemma_sum_juror_rewards_nonneg(jurors.drop_last(), total);
        assert(jurors.last().pct * total >= 0) by (nonlinear_arith)
            requires
                jurors.last().pct >= 0,
                total >= 0,
        ;
    }
}

/// The rewards of a prefix of the jury never exceed the rewards of the
/// whole jury.
pub proof fn lemma_sum_juror_rewards_take_le(jurors: Seq<Juror>, total: int, k: int)
    requires
        0 <= total,
        0 <= k <= jurors.len(),
    ensures
        sum_juror_rewards(jurors.take(k), total) <= sum_juror_rewards(jurors, total),
    decreases jurors.len(),
{
    if k == jurors.len() {
        assert(jurors.take(k) =~= jurors);
    } else {
        assert(jurors.drop_last().take(k) =~= jurors.take(k));
        lemma_sum_juror_rewards_take_le(jurors.drop_last(), total, k);
        assert(jurors.last().pct * total >= 0) by (nonlinear_arith)
            requires
                jurors.last().pct >= 0,
                total >= 0,
        ;
    }
}

/// With no stake at all, every jury reward truncates to zero.
pub proof fn lemma_sum_juror_rewards_zero(jurors: Seq<Juror>)
    ensures
        sum_juror_rewards(jurors, 0) == 0,
    decreases jurors.len(),
{
    if jurors.len() > 0 {
        lemma_sum_juror_rewards_zero(jurors.drop_last());
    }
}

/// Sum of the jurors' percentage shares.
pub open spec fn sum_juror_pcts(jurors: Seq<Juror>) -> int
    decreases jurors.len(),
{
    if jurors.len() == 0 {
        0
    } else {
        sum_juror_pcts(jurors.drop_last()) + jurors.last().pct
    }
}

/// Strict lexicographic order on character sequences, by unicode scalar
/// value: the order the juror records are kept and walked in.
pub open spec fn seq_char_lt(a: Seq<char>, b: Seq<char>) -> bool
    decreases a.len(),
{
    if b.len() == 0 {
        false
    } else if a.len() == 0 {
        true
    } else if (a.first() as u32) < (b.first() as u32) {
        true
    } else if (b.first() as u32) < (a.first() as u32) {
        false
    } else {
        seq_char_lt(a.drop_first(), b.drop_first())
    }
}

/// Two characters with the same scalar value are the same character.
proof fn lemma_char_inj(x: char, y: char)
    ensures
        x as u32 == y as u32 ==> x == y,
{
}

/// Nothing orders strictly before itself.
pub proof fn lemma_seq_char_lt_irrefl(a: Seq<char>)
    ensures
        !seq_char_lt(a, a),
    decreases a.len(),
{
    if a.len() > 0 {
        lemma_seq_char_lt_irrefl(a.drop_first());
    }
}

/// Any two character sequences are ordered or equal.
pub proof fn lemma_seq_char_lt_trichotomy(a: Seq<char>, b: Seq<char>)
    ensures
        seq_char_lt(a, b) || seq_char_lt(b, a) || a == b,
    decreases a.len(),
{
    if a.len() == 0 && b.len() == 0 {
        assert(a =~= b);
    } else if a.len() > 0 && b.len() > 0 {
        if (a.first() as u32) == (b.first() as u32) {
            lemma_char_inj(a.first(), b.first());
            lemma_seq_char_lt_trichotomy(a.drop_first(), b.drop_first());
            if a.drop_first() == b.drop_first() {
                assert(a.len() == b.len());
                assert forall|j: int| 0 <= j < a.len() implies a[j] == b[j] by {
                    if j > 0 {
                        assert(a.drop_first()[j - 1] == b.drop_first()[j - 1]);
                        assert(a[j] == a.drop_first()[j - 1]);
                        assert(b[j] == b.drop_first()[j - 1]);
                    } else {
                        assert(a[0] == a.first());
                        assert(b[0] == b.first());
                    }
                }
                assert(a =~= b);
            }
        }
    }
}

/// The order is transitive.
pub proof fn lemma_seq_char_lt_trans(a: Seq<char>, b: Seq<char>, c: Seq<char>)
    requires
        seq_char_lt(a, b),
        seq_char_lt(b, c),
    ensures
        seq_char_lt(a, c),
    decreases a.len(),
{
    if a.len() > 0 && b.len() > 0 && c.len() > 0 {
        if (a.first() as u32) == (b.first() as u32) && (b.first() as u32) == (c.first()
            as u32) {
            lemma_seq_char_lt_trans(a.drop_first(), b.drop_first(), c.drop_first());
        }
    }
}

/// Walking two sequences past a common prefix does not change their order.
pub proof fn lemma_seq_char_lt_skip(a: Seq<char>, b: Seq<char>, i: int)
    requires
        0 <= i <= a.len(),
        i <= b.len(),
        forall|j: int| 0 <= j < i ==> a[j] == b[j],
    ensures
        seq_char_lt(a, b) == seq_char_lt(a.skip(i), b.skip(i)),
    decreases i,
{
    if i == 0 {
        assert(a.skip(0) =~= a);
        assert(b.skip(0) =~= b);
    } else {
        assert(a.first() == b.first());
        assert(seq_char_lt(a, b) == seq_char_lt(a.drop_first(), b.drop_first()));
        assert forall|j: int| 0 <= j < i - 1 implies a.drop_first()[j] == b.drop_first()[j] by {
            assert(a.drop_first()[j] == a[j + 1]);
            assert(b.drop_first()[j] == b[j + 1]);
        }
        lemma_seq_char_lt_skip(a.drop_first(), b.drop_first(), i - 1);
        assert(a.drop_first().skip(i - 1) =~= a.skip(i));
        assert(b.drop_first().skip(i - 1) =~= b.skip(i));
    }
}

/// Whether `a` orders strictly before `b`, lexicographically by character.
pub fn string_lt(a: &String, b: &String) -> (r: bool)
    ensures
        r == seq_char_lt(a@, b@),
{
    let sa = a.as_str();
    let sb = b.as_str();
    let alen = sa.unicode_len();
    let blen = sb.unicode_len();
    let mut i: usize = 0;
    while i < alen && i < blen
        invariant
            i <= alen,
            i <= blen,
            alen == a@.len(),
            blen == b@.len(),
            sa@ == a@,
            sb@ == b@,
            forall|j: int| 0 <= j < i ==> a@[j] == b@[j],
        decreases alen - i,
    {
        let ca = sa.get_char(i);
        let cb = sb.get_char(i);
        proof {
            lemma_seq_char_lt_skip(a@, b@, i as int);
            assert(a@.skip(i as int).first() == a@[i as int]);
            assert(b@.skip(i as int).first() == b@[i as int]);
        }
        if (ca as u32) < (cb as u32) {
            return true;
        }
        if (cb as u32) < (ca as u32) {
            return false;
        }
        proof {
            lemma_char_inj(ca, cb);
            assert(a@[i as int] == b@[i as int]);
        }
        i = i + 1;
    }
    proof {
        lemma_seq_char_lt_skip(a@, b@, i as int);
        assert(a@.skip(i as int).len() == alen - i);
        assert(b@.skip(i as int).len() == blen - i);
    }
    alen < blen
}

/// The juror records stand in strictly ascending identity order.
pub open spec fn jurors_sorted(jurors: Seq<Juror>) -> bool {
    forall|i: int, j: int|
        0 <= i < j < jurors.len() ==> seq_char_lt(
            (#[trigger] jurors[i]).address@,
            (#[trigger] jurors[j]).address@,
        )
}

/// Index of the juror with the given identity, or -1 when none is
/// registered under it.
pub open spec fn juror_index(jurors: Seq<Juror>, address: Seq<char>) -> int
    decreases jurors.len(),
{
    if jurors.len() == 0 {
        -1
    } else if jurors.first().address@ == address {
        0
    } else {
        let rest = juror_index(jurors.drop_first(), address);
        if rest == -1 {
            -1
        } else {
            rest + 1
        }
    }
}

/// What the index that `juror_index` finds means: -1 exactly when no record
/// carries the identity, and otherwise the first record that does.
pub proof fn lemma_juror_index(jurors: Seq<Juror>, address: Seq<char>)
    ensures
        juror_index(jurors, address) == -1 ==> forall|k: int|
            0 <= k < jurors.len() ==> (#[trigger] jurors[k]).address@ != address,
        juror_index(jurors, address) != -1 ==> {
            let i = juror_index(jurors, address);
            &&& 0 <= i < jurors.len()
            &&& jurors[i].address@ == address
            &&& forall|k: int| 0 <= k < i ==> (#[trigger] jurors[k]).address@ != address
        },
    decreases jurors.len(),
{
    if jurors.len() == 0 {
    } else if jurors.first().address@ == address {
    } else {
        lemma_juror_index(jurors.drop_first(), address);
        assert forall|k: int| 1 <= k < jurors.len() implies jurors.drop_first()[k - 1]
            == (#[trigger] jurors[k]) by {}
    }
}

/// Find the juror registered under the given identity.
pub fn find_juror(jurors: &Vec<Juror>, address: &String) -> (r: Option<usize>)
    ensures
        r is None <==> juror_index(jurors@, address@) == -1,
        r matches Some(i) ==> juror_index(jurors@, address@) == i,
{
    proof {
        lemma_juror_index(jurors@, address@);
    }
    let mut i: usize = 0;
    while i < jurors.len()
        invariant
            i <= jurors@.len(),
            forall|k: int| 0 <= k < i ==> (#[trigger] jurors@[k]).address@ != address@,
        decreases jurors@.len() - i,
    {
        if jurors[i].address == *address {
            proof {
                lemma_juror_index(jurors@, address@);
                let fi = juror_index(jurors@, address@);
                assert(fi != -1);
                assert(fi <= i);
                assert(fi >= i);
            }
            return Some(i);
        }
        i = i + 1;
    }
    proof {
        lemma_juror_index(jurors@, address@);
        let fi = juror_index(jurors@, address@);
        if fi != -1 {
            assert(jurors@[fi].address@ == address@);
            assert(false);
        }
    }
    None
}

/// The juror record after a decision is recorded on it: the submitted choice
/// and logs overwrite any earlier submission; identity, display data and the
/// reward share stay.
pub open spec fn decided_juror(j: Juror, c: u32, logs: String) -> Juror {
    Juror {
        address: j.address,
        name: j.name,
        url: j.url,
        choice: Some(c),
        logs: Some(logs),
        pct: j.pct,
    }
}

} // verus!

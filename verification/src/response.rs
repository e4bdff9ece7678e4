//! What an engine call hands back to the host: a list of outgoing transfer
//! instructions and audit attributes. The instructions are provisional; the
//! host executes them only if the whole call commits.

use vstd::prelude::*;

verus! {

/// An amount of a native ledger asset, as attached to an incoming call.
#[derive(Debug, PartialEq)]
pub struct Coin {
    pub denom: String,
    pub amount: u128,
}

/// One outgoing transfer instruction. A `Native` instruction asks the ledger
/// to send coins to a recipient; a `Cw20` instruction asks the token
/// contract at `contract_addr` to move `amount` from `owner` to `recipient`
/// (the owner's allowance for the caller must cover it).
#[derive(Debug, PartialEq)]
pub enum TransferMsg {
    Native { to_address: String, denom: String, amount: u128 },
    Cw20 { owner: String, recipient: String, contract_addr: String, amount: u128 },
}

/// The amount an instruction moves, whatever its kind.
pub open spec fn transfer_amount(m: TransferMsg) -> int {
    match m {
        TransferMsg::Native { amount, .. } => amount as int,
        TransferMsg::Cw20 { amount, .. } => amount as int,
    }
}

/// The total amount a list of instructions moves.
pub open spec fn sum_transfer_amounts(msgs: Seq<TransferMsg>) -> int
    decreases msgs.len(),
{
    if msgs.len() == 0 {
        0
    } else {
        sum_transfer_amounts(msgs.drop_last()) + transfer_amount(msgs.last())
    }
}

/// The character for one decimal digit.
pub open spec fn digit_char(d: nat) -> char {
    if d == 0 {
        '0'
    } else if d == 1 {
        '1'
    } else if d == 2 {
        '2'
    } else if d == 3 {
        '3'
    } else if d == 4 {
        '4'
    } else if d == 5 {
        '5'
    } else if d == 6 {
        '6'
    } else if d == 7 {
        '7'
    } else if d == 8 {
        '8'
    } else {
        '9'
    }
}

/// The decimal rendering of `n`, most significant digit first.
pub open spec fn decimal_of(n: nat) -> Seq<char>
    decreases n,
{
    if n < 10 {
        seq![digit_char(n)]
    } else {
        decimal_of(n / 10).push(digit_char(n % 10))
    }
}

/// Relies on `String::push`: appending one character to the string.
pub assume_specification[ String::push ](s: &mut String, ch: char)
    ensures
        final(s)@ == old(s)@.push(ch),
;

/// The character for one decimal digit.
fn digit_char_of(d: u128) -> (r: char)
    requires
        d < 10,
    ensures
        r == digit_char(d as nat),
{
    if d == 0 {
        '0'
    } else if d == 1 {
        '1'
    } else if d == 2 {
        '2'
    } else if d == 3 {
        '3'
    } else if d == 4 {
        '4'
    } else if d == 5 {
        '5'
    } else if d == 6 {
        '6'
    } else if d == 7 {
        '7'
    } else if d == 8 {
        '8'
    } else {
        '9'
    }
}

/// Append the decimal rendering of `n`.
fn push_decimal(n: u128, out: &mut String)
    ensures
        final(out)@ == old(out)@ + decimal_of(n as nat),
    decreases n,
{
    proof {
        vstd::arithmetic::div_mod::lemma_mod_division_less_than_divisor(n as int, 10);
        if n >= 10 {
            vstd::arithmetic::div_mod::lemma_div_is_strictly_smaller(n as int, 10);
        } else {
            vstd::arithmetic::div_mod::lemma_small_mod(n as nat, 10);
        }
    }
    if n >= 10 {
        push_decimal(n / 10, out);
    }
    out.push(digit_char_of(n % 10));
    proof {
        assert(out@ =~= old(out)@ + decimal_of(n as nat));
    }
}

/// The decimal rendering of an amount, for an audit attribute.
pub fn format_amount(n: u128) -> (r: String)
    ensures
        r@ == decimal_of(n as nat),
{
    let mut out = String::new();
    push_decimal(n, &mut out);
    proof {
        assert(out@ =~= decimal_of(n as nat));
    }
    out
}

/// One audit attribute of a call's response.
#[derive(Debug, PartialEq)]
pub struct Attribute {
    pub key: String,
    pub value: String,
}

/// The successful outcome of an engine call.
#[derive(Debug, PartialEq)]
pub struct Response {
    pub messages: Vec<TransferMsg>,
    pub attributes: Vec<Attribute>,
}

impl Response {
    /// A response carrying only the `action` audit attribute.
    pub fn new_action(action: &str) -> (r: Response)
        ensures
            r.messages@ =~= Seq::<TransferMsg>::empty(),
            r.attributes@.len() == 1,
            r.attributes@[0].key@ == "action"@,
            r.attributes@[0].value@ == action@,
    {
        let mut attributes: Vec<Attribute> = Vec::new();
        attributes.push(Attribute { key: "action".to_owned(), value: action.to_owned() });
        Response { messages: Vec::new(), attributes }
    }
}

} // verus!

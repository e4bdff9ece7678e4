//! Payment validation and the construction of outgoing transfer
//! instructions, shared by the engines.

use vstd::prelude::*;

use crate::error::ContractError;
use crate::response::{Coin, TransferMsg};

verus! {

/// Index of the first attached coin of the given denomination, or -1 when
/// none is attached.
pub open spec fn coin_index(funds: Seq<Coin>, denom: Seq<char>) -> int
    decreases funds.len(),
{
    if funds.len() == 0 {
        -1
    } else if funds.first().denom@ == denom {
        0
    } else {
        let rest = coin_index(funds.drop_first(), denom);
        if rest == -1 {
            -1
        } else {
            rest + 1
        }
    }
}

/// What validating an attached native payment returns: the first coin of the
/// required denomination must exist and must match the required amount
/// exactly; too little (or no coin at all) is `InsufficientFunds`, too much
/// is `ExcessiveFunds`.
pub open spec fn native_funds_result(
    funds: Seq<Coin>,
    payment_amount: int,
    denom: Seq<char>,
) -> Result<(), ContractError> {
    let i = coin_index(funds, denom);
    if i == -1 {
        Err(ContractError::InsufficientFunds)
    } else if funds[i].amount < payment_amount {
        Err(ContractError::InsufficientFunds)
    } else if funds[i].amount > payment_amount {
        Err(ContractError::ExcessiveFunds)
    } else {
        Ok(())
    }
}

/// What the index that `coin_index` finds means.
pub proof fn lemma_coin_index(funds: Seq<Coin>, denom: Seq<char>)
    ensures
        coin_index(funds, denom) == -1 ==> forall|k: int|
            0 <= k < funds.len() ==> (#[trigger] funds[k]).denom@ != denom,
        coin_index(funds, denom) != -1 ==> {
            let i = coin_index(funds, denom);
            &&& 0 <= i < funds.len()
            &&& funds[i].denom@ == denom
            &&& forall|k: int| 0 <= k < i ==> (#[trigger] funds[k]).denom@ != denom
        },
    decreases funds.len(),
{
    if funds.len() == 0 {
    } else if funds.first().denom@ == denom {
    } else {
        lemma_coin_index(funds.drop_first(), denom);
        assert forall|k: int| 1 <= k < funds.len() implies funds.drop_first()[k - 1]
            == (#[trigger] funds[k]) by {}
    }
}

/// Check for the exact payment amount required among the attached funds.
pub fn validate_native_funds(
    funds: &Vec<Coin>,
    payment_amount: u128,
    denom: &String,
) -> (r: Result<(), ContractError>)
    ensures
        r == native_funds_result(funds@, payment_amount as int, denom@),
{
    proof {
        lemma_coin_index(funds@, denom@);
    }
    let mut i: usize = 0;
    while i < funds.len()
        invariant
            i <= funds@.len(),
            forall|k: int| 0 <= k < i ==> (#[trigger] funds@[k]).denom@ != denom@,
        decreases funds@.len() - i,
    {
        if funds[i].denom == *denom {
            proof {
                lemma_coin_index(funds@, denom@);
                let fi = coin_index(funds@, denom@);
                assert(fi != -1);
                assert(fi == i);
            }
            if funds[i].amount < payment_amount {
                return Err(ContractError::InsufficientFunds);
            } else if funds[i].amount > payment_amount {
                return Err(ContractError::ExcessiveFunds);
            }
            return Ok(());
        }
        i = i + 1;
    }
    proof {
        lemma_coin_index(funds@, denom@);
        if coin_index(funds@, denom@) != -1 {
            assert(false);
        }
    }
    Err(ContractError::InsufficientFunds)
}

/// Check the payment amount required against the payer's token balance, as
/// the token contract last reported it.
pub fn validate_cw20_funds(balance: u128, payment_amount: u128) -> (r: Result<(), ContractError>)
    ensures
        r is Ok <==> balance >= payment_amount,
        r is Err ==> r == Err::<(), ContractError>(ContractError::InsufficientFunds),
{
    if balance < payment_amount {
        return Err(ContractError::InsufficientFunds);
    }
    Ok(())
}

/// The instruction asking the token contract to move `amount` from one
/// wallet to another. The owner's allowance for this contract must be set.
pub fn build_cw20_transfer_msg(
    from_address: &String,
    to_address: &String,
    cw20_token_address: &String,
    amount: u128,
) -> (m: TransferMsg)
    ensures
        m == (TransferMsg::Cw20 {
            owner: *from_address,
            recipient: *to_address,
            contract_addr: *cw20_token_address,
            amount,
        }),
{
    TransferMsg::Cw20 {
        owner: from_address.clone(),
        recipient: to_address.clone(),
        contract_addr: cw20_token_address.clone(),
        amount,
    }
}

/// The instruction asking the ledger to send `amount` of a native asset to
/// a recipient.
pub fn build_native_send_msg(
    to_address: &String,
    ibc_denom: &String,
    amount: u128,
) -> (m: TransferMsg)
    ensures
        m == (TransferMsg::Native { to_address: *to_address, denom: *ibc_denom, amount }),
{
    TransferMsg::Native { to_address: to_address.clone(), denom: ibc_denom.clone(), amount }
}

} // verus!

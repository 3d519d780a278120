//! Checks on the funds that accompany a message, made by `cw_utils`.
use vstd::prelude::*;
use crate::types::Coin;

verus! {

/// Why the funds sent with a message were refused.
#[derive(Clone, Debug, PartialEq, Eq)]
pub enum PaymentError {
    MissingDenom(String),
    ExtraDenom(String),
    MultipleDenoms,
    NoFunds,
    NonPayable,
}

/// What `must_pay` answers for the given funds: the single non-zero coin's
/// amount when it is of `denom`, and otherwise the error that names the fault.
pub open spec fn must_pay_result(funds: Seq<Coin>, denom: Seq<char>, r: Result<u128, PaymentError>) -> bool {
    if funds.len() == 0 || (funds.len() == 1 && funds[0].amount == 0) {
        r == Err::<u128, PaymentError>(PaymentError::NoFunds)
    } else if funds.len() > 1 {
        r == Err::<u128, PaymentError>(PaymentError::MultipleDenoms)
    } else if funds[0].denom@ != denom {
        r matches Err(PaymentError::MissingDenom(d)) && d@ == denom
    } else {
        r == Ok::<u128, PaymentError>(funds[0].amount)
    }
}

/// `cw_utils::must_pay` on a message carrying `funds`: it answers with the
/// amount of the one coin sent when that coin is non-zero and of `denom`,
/// `NoFunds` when nothing (or a zero coin) was sent, `MultipleDenoms` for two
/// or more coins, and `MissingDenom` for one coin of another denomination.
#[verifier::external_body]
pub(crate) fn must_pay(funds: &Vec<Coin>, denom: &str) -> (r: Result<u128, PaymentError>)
    ensures
        must_pay_result(funds@, denom@, r),
{
    let coins = funds.iter().map(|c| cosmwasm_std::Coin::new(c.amount, c.denom.clone())).collect();
    let info = cosmwasm_std::MessageInfo { sender: cosmwasm_std::Addr::unchecked(""), funds: coins };
    match cw_utils::must_pay(&info, denom) {
        Ok(amount) => Ok(amount.u128()),
        Err(cw_utils::PaymentError::MissingDenom(d)) => Err(PaymentError::MissingDenom(d)),
        Err(cw_utils::PaymentError::ExtraDenom(d)) => Err(PaymentError::ExtraDenom(d)),
        Err(cw_utils::PaymentError::MultipleDenoms {}) => Err(PaymentError::MultipleDenoms),
        Err(cw_utils::PaymentError::NoFunds {}) => Err(PaymentError::NoFunds),
        Err(cw_utils::PaymentError::NonPayable {}) => Err(PaymentError::NonPayable),
    }
}

/// `cw_utils::nonpayable` on a message carrying `funds`: it refuses with
/// `NonPayable` exactly when any coin was sent.
#[verifier::external_body]
pub(crate) fn nonpayable(funds: &Vec<Coin>) -> (r: Result<(), PaymentError>)
    ensures
        r == (if funds@.len() == 0 { Ok::<(), PaymentError>(()) } else { Err(PaymentError::NonPayable) }),
{
    let coins = funds.iter().map(|c| cosmwasm_std::Coin::new(c.amount, c.denom.clone())).collect();
    let info = cosmwasm_std::MessageInfo { sender: cosmwasm_std::Addr::unchecked(""), funds: coins };
    match cw_utils::nonpayable(&info) {
        Ok(()) => Ok(()),
        Err(_) => Err(PaymentError::NonPayable),
    }
}

} // verus!

verus! {

/// Whether `funds` is one non-zero coin of `denom`, which `must_pay` accepts.
pub open spec fn pays_in(funds: Seq<Coin>, denom: Seq<char>) -> bool {
    funds.len() == 1 && funds[0].amount != 0 && funds[0].denom@ == denom
}

/// `must_pay` accepts exactly the funds that `pays_in` describes, answering
/// their amount.
pub proof fn lemma_must_pay(funds: Seq<Coin>, denom: Seq<char>, r: Result<u128, PaymentError>)
    requires
        must_pay_result(funds, denom, r),
    ensures
        pays_in(funds, denom) <==> r is Ok,
        r matches Ok(a) ==> a == funds[0].amount,
{
}

} // verus!

//! The single payment that an operation demands.

use vstd::prelude::*;
use crate::types::{coins_view, CoinView, MessageInfo};

verus! {

/// Why funds were not the payment asked for.
#[derive(Clone, Copy, Debug, PartialEq, Eq, Structural)]
pub enum PaymentError {
    /// The one coin sent is of another denomination.
    MissingDenom,
    /// A coin of a denomination that is not accepted was sent.
    ExtraDenom,
    /// More than one coin was sent.
    MultipleDenoms,
    /// Nothing was sent, or an amount of zero.
    NoFunds,
    /// Funds were sent where none are accepted.
    NonPayable,
}

/// The amount paid in `denom`: the funds must be exactly one coin, of that
/// denomination and not of amount zero.
pub open spec fn must_pay_spec(funds: Seq<CoinView>, denom: Seq<char>) -> Result<u128, PaymentError> {
    if funds.len() == 0 {
        Err(PaymentError::NoFunds)
    } else if funds.len() > 1 {
        Err(PaymentError::MultipleDenoms)
    } else if funds[0].amount == 0 {
        Err(PaymentError::NoFunds)
    } else if funds[0].denom != denom {
        Err(PaymentError::MissingDenom)
    } else {
        Ok(funds[0].amount)
    }
}

/// `cw_utils::must_pay` on the funds of `info`: the amount of the one coin
/// sent, after the tests that `must_pay_spec` lists, in that order.
#[verifier::external_body]
pub(crate) fn must_pay(info: &MessageInfo, denom: &str) -> (r: Result<u128, PaymentError>)
    ensures
        r == must_pay_spec(coins_view(info.funds@), denom@),
{
    let funds = info.funds.iter().map(|c| cosmwasm_std::Coin::new(c.amount, c.denom.clone())).collect();
    let sender = cosmwasm_std::Addr::unchecked(info.sender.clone());
    match cw_utils::must_pay(&cosmwasm_std::MessageInfo { sender, funds }, denom) {
        Ok(amount) => Ok(amount.u128()),
        Err(cw_utils::PaymentError::MissingDenom(_)) => Err(PaymentError::MissingDenom),
        Err(cw_utils::PaymentError::ExtraDenom(_)) => Err(PaymentError::ExtraDenom),
        Err(cw_utils::PaymentError::MultipleDenoms {}) => Err(PaymentError::MultipleDenoms),
        Err(cw_utils::PaymentError::NoFunds {}) => Err(PaymentError::NoFunds),
        Err(cw_utils::PaymentError::NonPayable {}) => Err(PaymentError::NonPayable),
    }
}

} // verus!

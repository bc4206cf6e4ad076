use vstd::prelude::*;
use cw_utils::PaymentError as Refusal;
use crate::error::{PaymentError, PaymentFailure};
use crate::msg::{Coin, MessageInfo};

verus! {

/// What a command that takes a fee in `denom` reads from the funds sent with
/// it: exactly one coin, of that denomination and of non-zero amount.
pub open spec fn payment_of(funds: Seq<Coin>, denom: Seq<char>) -> Result<u128, PaymentFailure> {
    if funds.len() == 0 {
        Err(PaymentFailure::NoFunds)
    } else if funds.len() == 1 {
        if funds[0].amount == 0 {
            Err(PaymentFailure::NoFunds)
        } else if funds[0].denom@ != denom {
            Err(PaymentFailure::MissingDenom(denom))
        } else {
            Ok(funds[0].amount)
        }
    } else {
        Err(PaymentFailure::MultipleDenoms)
    }
}

/// Relies on cw_utils::must_pay to read the fee: it takes the one coin sent
/// (none, or one of amount zero, is `NoFunds`; two or more are
/// `MultipleDenoms`) and refuses it unless it is of `denom`.
#[verifier::external_body]
pub(crate) fn paid_amount(info: &MessageInfo, denom: &str) -> (r: Result<u128, PaymentError>)
    ensures
        match r {
            Ok(a) => payment_of(info.funds@, denom@) == Ok::<u128, PaymentFailure>(a),
            Err(e) => payment_of(info.funds@, denom@) == Err::<u128, PaymentFailure>(e@),
        },
{
    let funds = info.funds.iter().map(|c| cosmwasm_std::coin(c.amount, c.denom.as_str())).collect();
    let sender = cosmwasm_std::Addr::unchecked(info.sender.as_str());
    match cw_utils::must_pay(&cosmwasm_std::MessageInfo { sender, funds }, denom) {
        Ok(a) => Ok(a.u128()),
        Err(Refusal::MissingDenom(d)) => Err(PaymentError::MissingDenom(d)),
        Err(Refusal::ExtraDenom(d)) => Err(PaymentError::ExtraDenom(d)),
        Err(Refusal::MultipleDenoms {}) => Err(PaymentError::MultipleDenoms),
        Err(Refusal::NoFunds {}) => Err(PaymentError::NoFunds),
        Err(Refusal::NonPayable {}) => Err(PaymentError::NonPayable),
    }
}

} // verus!

//! The cost of a ledger transaction: the gas limit with its safety margin,
//! the funds that the limit ties up, and whether a wallet holds them.

use vstd::prelude::*;

verus! {

/// Gas price in wei that is used where the ledger names none: 2 Gwei.
pub const FALLBACK_GAS_PRICE: u64 = 2_000_000_000;

/// The gas limit for an estimate: the estimate and a fifth on top, rounded
/// down.
pub open spec fn buffered_gas(estimate: u128) -> int {
    estimate * 120 / 100
}

/// The funds in wei that a transaction ties up.
pub open spec fn funds_needed(estimate: u128, gas_price: u64) -> int {
    buffered_gas(estimate) * gas_price
}

/// What a transaction may cost.
#[derive(Clone, Copy, Debug, PartialEq, Eq, Structural)]
pub struct GasBudget {
    pub gas_limit: u128,
    pub gas_price: u64,
    pub required_funds: u128,
}

/// Why a transaction is not sent.
#[derive(Clone, Copy, Debug, PartialEq, Eq, Structural)]
pub enum FundsError {
    /// The wallet holds less than the transaction ties up.
    Insufficient { required: u128, balance: u128 },
    /// The funds needed are beyond what 128 bits can state.
    AmountTooLarge,
}

/// The gas price to offer: the ledger's, or the fallback where the ledger
/// names none.
pub fn gas_price_or_fallback(quoted: Option<u64>) -> (price: u64)
    ensures
        price == match quoted {
            Some(p) => p,
            None => FALLBACK_GAS_PRICE,
        },
{
    match quoted {
        Some(p) => p,
        None => FALLBACK_GAS_PRICE,
    }
}

/// The gas limit for an estimate, if 128 bits can state it.
pub fn gas_limit(estimate: u128) -> (limit: Option<u128>)
    ensures
        match limit {
            Some(l) => l == buffered_gas(estimate),
            None => buffered_gas(estimate) > u128::MAX,
        },
{
    let hundreds: u128 = estimate / 100;
    let rest: u128 = estimate % 100;
    proof {
        assert(estimate * 120 / 100 == (estimate / 100) * 120 + (estimate % 100) * 120 / 100)
            by (nonlinear_arith);
    }
    match hundreds.checked_mul(120) {
        Some(whole) => whole.checked_add(rest * 120 / 100),
        None => None,
    }
}

/// Decides whether a wallet can pay for a transaction: the gas limit is the
/// estimate and a fifth, the funds needed are the limit times the price, and
/// the wallet must hold at least that.
pub fn check_funds(balance: u128, estimate: u128, gas_price: u64) -> (r: Result<
    GasBudget,
    FundsError,
>)
    ensures
        match r {
            Ok(budget) => {
                &&& budget.gas_limit == buffered_gas(estimate)
                &&& budget.gas_price == gas_price
                &&& budget.required_funds == funds_needed(estimate, gas_price)
                &&& balance >= funds_needed(estimate, gas_price)
            },
            Err(FundsError::Insufficient { required, balance: held }) => {
                &&& required == funds_needed(estimate, gas_price)
                &&& held == balance
                &&& balance < funds_needed(estimate, gas_price)
            },
            Err(FundsError::AmountTooLarge) => buffered_gas(estimate) > u128::MAX || funds_needed(
                estimate,
                gas_price,
            ) > u128::MAX,
        },
{
    let limit = match gas_limit(estimate) {
        Some(l) => l,
        None => {
            return Err(FundsError::AmountTooLarge);
        },
    };
    let required = match limit.checked_mul(gas_price as u128) {
        Some(r) => r,
        None => {
            return Err(FundsError::AmountTooLarge);
        },
    };
    if balance < required {
        Err(FundsError::Insufficient { required, balance })
    } else {
        Ok(GasBudget { gas_limit: limit, gas_price, required_funds: required })
    }
}

} // verus!

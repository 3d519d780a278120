//! What an account costs: the mint price by name length, the stake a minter
//! must hold by name length, and the trading fee taken from a sale.
use vstd::prelude::*;
use cosmwasm_std::Fraction;
use crate::errors::MarketError;
use crate::funds::{must_pay, must_pay_result};
use crate::types::{Coin, NATIVE_DENOM};

verus! {

/// The number of atomic units in one whole `Decimal`.
pub open spec fn decimal_fractional() -> int {
    1_000_000_000_000_000_000
}

/// The mint price of a name `account_len` bytes long: `None` below three bytes,
/// a hundred times the base price at three, ten times at four, the base price above.
pub open spec fn name_price(account_len: nat, base_price: u128) -> Option<int> {
    if account_len <= 2 {
        None
    } else if account_len == 3 {
        Some(base_price * 100)
    } else if account_len == 4 {
        Some(base_price * 10)
    } else {
        Some(base_price as int)
    }
}

/// What `validate_payment` answers.
pub open spec fn payment_check(account_len: nat, funds: Seq<Coin>, base_price: u128, r: Result<Option<Coin>, MarketError>) -> bool {
    match name_price(account_len, base_price) {
        None => r == Err::<Option<Coin>, MarketError>(MarketError::AccountTooShort),
        Some(amount) => if amount == 0 {
            r == Ok::<Option<Coin>, MarketError>(None)
        } else {
            let paid = funds;
            if paid.len() == 1 && paid[0].amount != 0 && paid[0].denom@ == NATIVE_DENOM@ {
                if paid[0].amount != amount {
                    r == Err::<Option<Coin>, MarketError>(MarketError::IncorrectPayment { got: paid[0].amount, expected: amount as u128 })
                } else {
                    r matches Ok(Some(c)) && c.amount == amount && c.denom@ == NATIVE_DENOM@
                }
            } else {
                exists|e| must_pay_result(funds, NATIVE_DENOM@, Err(e)) && r == Err::<Option<Coin>, MarketError>(MarketError::Payment(e))
            }
        },
    }
}

/// Checks that `funds` pay exactly the mint price of a name `account_len`
/// bytes long, in the native denomination. Answers the coin paid, or `None`
/// when the price is zero (nothing is then asked of the funds).
pub fn validate_payment(account_len: usize, funds: &Vec<Coin>, base_price: u128) -> (r: Result<Option<Coin>, MarketError>)
    requires
        account_len == 3 ==> base_price * 100 <= u128::MAX,
        account_len == 4 ==> base_price * 10 <= u128::MAX,
    ensures
        payment_check(account_len as nat, funds@, base_price, r),
{
    let amount: u128 = if account_len <= 2 {
        return Err(MarketError::AccountTooShort);
    } else if account_len == 3 {
        base_price * 100
    } else if account_len == 4 {
        base_price * 10
    } else {
        base_price
    };
    if amount == 0 {
        return Ok(None);
    }
    let payment = match must_pay(funds, NATIVE_DENOM) {
        Ok(p) => p,
        Err(e) => return Err(MarketError::Payment(e)),
    };
    if payment != amount {
        return Err(MarketError::IncorrectPayment { got: payment, expected: amount });
    }
    Ok(Some(Coin { denom: NATIVE_DENOM.to_owned(), amount }))
}

/// The sum of the given amounts.
pub open spec fn total(amounts: Seq<u128>) -> int
    decreases amounts.len(),
{
    if amounts.len() == 0 {
        0
    } else {
        total(amounts.drop_last()) + amounts.last()
    }
}

/// The stake needed to mint a name `account_len` bytes long: five times the
/// base delegation at three bytes, three times at four, the base above.
pub open spec fn required_delegation(account_len: nat, base_delegation: u128) -> int {
    if account_len == 3 {
        base_delegation * 5
    } else if account_len == 4 {
        base_delegation * 3
    } else {
        base_delegation as int
    }
}

/// Checks that the minter's delegations (`delegations`, the amount of each)
/// add up to at least the stake required for a name `account_len` bytes long;
/// refused with `IncorrectDelegation` (what was found, what was needed) otherwise.
pub fn validate_staking(delegations: &Vec<u128>, account_len: usize, base_delegation: u128) -> (r: Result<(), MarketError>)
    requires
        total(delegations@) <= u128::MAX,
        required_delegation(account_len as nat, base_delegation) <= u128::MAX,
    ensures
        total(delegations@) >= required_delegation(account_len as nat, base_delegation) ==> r is Ok,
        total(delegations@) < required_delegation(account_len as nat, base_delegation) ==> r == Err::<(), MarketError>(
            MarketError::IncorrectDelegation {
                got: total(delegations@) as u128,
                expected: required_delegation(account_len as nat, base_delegation) as u128,
            }),
{
    let mut sum: u128 = 0;
    let n = delegations.len();
    for i in 0..n
        invariant
            n == delegations@.len(),
            total(delegations@) <= u128::MAX,
            sum == total(delegations@.take(i as int)),
    {
        proof {
            lemma_total_prefix(delegations@, i as int);
            assert(delegations@.take(i + 1).drop_last() =~= delegations@.take(i as int));
        }
        sum = sum + delegations[i];
    }
    proof {
        assert(delegations@.take(n as int) =~= delegations@);
    }
    let expected: u128 = if account_len == 3 {
        base_delegation * 5
    } else if account_len == 4 {
        base_delegation * 3
    } else {
        base_delegation
    };
    if sum < expected {
        return Err(MarketError::IncorrectDelegation { got: sum, expected });
    }
    Ok(())
}

/// The total of a prefix never exceeds the total of the whole.
pub proof fn lemma_total_prefix(amounts: Seq<u128>, i: int)
    requires
        0 <= i < amounts.len(),
    ensures
        total(amounts.take(i + 1)) <= total(amounts),
    decreases amounts.len(),
{
    if i + 1 < amounts.len() {
        lemma_total_prefix(amounts.drop_last(), i);
        assert(amounts.drop_last().take(i + 1) =~= amounts.take(i + 1));
    } else {
        assert(amounts.take(i + 1) =~= amounts);
    }
}

/// The sum of `amounts`, or `None` when it does not fit a `u128`.
pub fn checked_total(amounts: &Vec<u128>) -> (r: Option<u128>)
    ensures
        r is None <==> total(amounts@) > u128::MAX,
        r matches Some(t) ==> t == total(amounts@),
{
    let mut sum: u128 = 0;
    let n = amounts.len();
    for i in 0..n
        invariant
            n == amounts@.len(),
            sum == total(amounts@.take(i as int)),
    {
        proof {
            assert(amounts@.take(i + 1).drop_last() =~= amounts@.take(i as int));
        }
        match sum.checked_add(amounts[i]) {
            Some(t) => sum = t,
            None => {
                proof {
                    lemma_total_prefix(amounts@, i as int);
                }
                return None;
            },
        }
    }
    proof {
        assert(amounts@.take(n as int) =~= amounts@);
    }
    Some(sum)
}

/// The fee rate, in `Decimal` atomics, of a fee of `bps` basis points.
pub open spec fn fee_rate_of_bps(bps: u64) -> int {
    bps * 10_000_000_000_000_000 / 100
}

/// `cosmwasm_std::Decimal::percent(bps) / Uint128::from(100u128)`, as the
/// atomics of the resulting `Decimal`: `percent` scales `bps` by 10^16 (which
/// always fits) and the division by an integer divides the atomics, rounding down.
#[verifier::external_body]
pub(crate) fn fee_rate_from_bps(bps: u64) -> (r: u128)
    ensures
        r == fee_rate_of_bps(bps),
{
    (cosmwasm_std::Decimal::percent(bps) / cosmwasm_std::Uint128::from(100u128)).atomics().u128()
}

/// The fee taken from `payment` at a rate of `rate` `Decimal` atomics.
pub open spec fn fee_of(payment: u128, rate: u128) -> int {
    payment * rate / decimal_fractional()
}

/// `cosmwasm_std::Uint128::multiply_ratio` of `payment` by the numerator and
/// denominator of the `Decimal` with `rate` atomics: `payment * rate / 10^18`,
/// computed without intermediate overflow and rounded down. It panics when the
/// result does not fit a `u128`, which `requires` rules out.
#[verifier::external_body]
pub(crate) fn fee_from_rate(payment: u128, rate: u128) -> (r: u128)
    requires
        fee_of(payment, rate) <= u128::MAX,
    ensures
        r == fee_of(payment, rate),
{
    let d = cosmwasm_std::Decimal::raw(rate);
    cosmwasm_std::Uint128::new(payment).multiply_ratio(d.numerator(), d.denominator()).u128()
}

/// At a rate of at most 100% the fee is at most the payment.
pub proof fn lemma_fee_within(payment: u128, rate: u128)
    requires
        rate <= fee_rate_of_bps(10000),
    ensures
        0 <= fee_of(payment, rate) <= payment,
{
    assert(fee_rate_of_bps(10000) == decimal_fractional());
    assert(0 <= payment * rate / decimal_fractional() <= payment) by (nonlinear_arith)
        requires
            0 <= payment,
            0 <= rate <= decimal_fractional(),
            decimal_fractional() > 0,
    {
        assert(payment * rate <= payment * decimal_fractional());
    }
}

} // verus!

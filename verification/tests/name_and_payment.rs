use terp_accounts::account_name::{invalid_char, validate_account};
use terp_accounts::errors::MarketError;
use terp_accounts::funds::PaymentError;
use terp_accounts::pricing::{validate_payment, validate_staking};
use terp_accounts::types::Coin;

/// The base mint price used by the deployment suite.
const BASE_PRICE: u128 = 100_000_000;

fn coin(amount: u128, denom: &str) -> Coin {
    Coin { denom: denom.to_string(), amount }
}

fn check_accounts() {
    let min = 3;
    let max = 63;
    assert!(validate_account("bobo", min, max).is_ok());
    assert!(validate_account("-bobo", min, max).is_err());
    assert!(validate_account("bobo-", min, max).is_err());
    assert!(validate_account("bo-bo", min, max).is_ok());
    assert!(validate_account("bo--bo", min, max).is_err());
    assert!(validate_account("bob--o", min, max).is_ok());
    assert!(validate_account("bo", min, max).is_err());
    assert!(validate_account("b", min, max).is_err());
    assert!(validate_account("bob", min, max).is_ok());
    assert!(validate_account("bobobobobobobobobobobobobobobobobobobobobobobobobobobobobobobo", min, max).is_ok());
    assert!(validate_account("bobobobobobobobobobobobobobobobobobobobobobobobobobobobobobobob", min, max).is_err());
    assert!(validate_account("0123456789", min, max).is_ok());
    assert!(validate_account("😬", min, max).is_err());
    assert!(validate_account("BOBO", min, max).is_err());
    assert!(validate_account("b-o----b", min, max).is_ok());
    assert!(validate_account("bobo.stars", min, max).is_err());
}

fn check_payments() {
    let base_price = BASE_PRICE;
    let funds = vec![coin(base_price, "uthiol")];
    assert_eq!(validate_payment(5, &funds, base_price).unwrap().unwrap().amount, base_price);
    let funds = vec![coin(base_price * 10, "uthiol")];
    assert_eq!(validate_payment(4, &funds, base_price).unwrap().unwrap().amount, base_price * 10);
    let funds = vec![coin(base_price * 100, "uthiol")];
    assert_eq!(validate_payment(3, &funds, base_price).unwrap().unwrap().amount, base_price * 100);
}

#[test]
fn commands_check_validate_account() {
    check_accounts();
}

#[test]
fn contract_check_validate_account() {
    check_accounts();
}

#[test]
fn commands_check_validate_payment() {
    check_payments();
}

#[test]
fn contract_check_validate_payment() {
    check_payments();
}

#[test]
fn account_name_errors_name_the_fault() {
    assert_eq!(validate_account("ab", 3, 63), Err(MarketError::AccountTooShort));
    assert_eq!(validate_account("abc", 3, 3), Err(MarketError::AccountTooLong));
    assert_eq!(validate_account("a_b", 3, 63), Err(MarketError::InvalidAccount));
    assert_eq!(validate_account("-ab", 3, 63), Err(MarketError::InvalidAccount));
    assert_eq!(validate_account("ab--c", 3, 63), Err(MarketError::InvalidAccount));
    // the byte length counts, not the characters
    assert_eq!(validate_account("éé", 3, 63), Err(MarketError::InvalidAccount));
    assert!(invalid_char('A'));
    assert!(!invalid_char('-'));
}

#[test]
fn payment_errors_name_the_fault() {
    assert_eq!(validate_payment(2, &vec![], BASE_PRICE), Err(MarketError::AccountTooShort));
    assert_eq!(validate_payment(5, &vec![], 0), Ok(None));
    assert_eq!(validate_payment(5, &vec![], BASE_PRICE), Err(MarketError::Payment(PaymentError::NoFunds)));
    assert_eq!(
        validate_payment(5, &vec![coin(1, "uthiol"), coin(1, "other")], BASE_PRICE),
        Err(MarketError::Payment(PaymentError::MultipleDenoms))
    );
    assert_eq!(
        validate_payment(5, &vec![coin(BASE_PRICE, "other")], BASE_PRICE),
        Err(MarketError::Payment(PaymentError::MissingDenom("uthiol".to_string())))
    );
    assert_eq!(
        validate_payment(5, &vec![coin(BASE_PRICE - 1, "uthiol")], BASE_PRICE),
        Err(MarketError::IncorrectPayment { got: BASE_PRICE - 1, expected: BASE_PRICE })
    );
}

#[test]
fn staking_tiers() {
    let base = 2_100_000_000u128;
    assert!(validate_staking(&vec![base * 5], 3, base).is_ok());
    assert!(validate_staking(&vec![base * 2, base], 4, base).is_ok());
    assert!(validate_staking(&vec![base], 5, base).is_ok());
    assert_eq!(
        validate_staking(&vec![10_000_440], 6, base),
        Err(MarketError::IncorrectDelegation { got: 10_000_440, expected: base })
    );
    assert_eq!(
        validate_staking(&vec![base], 3, base),
        Err(MarketError::IncorrectDelegation { got: base, expected: base * 5 })
    );
}

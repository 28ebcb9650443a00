//! Tests for the text utilities and the storage-rent accounting.

use ggquest::errors::QuestError;
use ggquest::rent::refund_deposit;
use ggquest::text::{is_valid_account_id, make_child_account, parse_u128, u64_to_dec_string};

#[test]
fn parse_accepts_exact_numerals() {
    assert_eq!(parse_u128("0"), Some(0));
    assert_eq!(parse_u128("123"), Some(123));
    assert_eq!(parse_u128("00042"), Some(42));
    assert_eq!(
        parse_u128("340282366920938463463374607431768211455"),
        Some(u128::MAX)
    );
}

#[test]
fn parse_rejects_everything_else() {
    assert_eq!(parse_u128(""), None);
    assert_eq!(parse_u128("12x"), None);
    assert_eq!(parse_u128("-1"), None);
    assert_eq!(parse_u128("1 2"), None);
    // One past the largest representable value.
    assert_eq!(parse_u128("340282366920938463463374607431768211456"), None);
}

#[test]
fn decimal_rendering_is_exact() {
    assert_eq!(u64_to_dec_string(0), "0");
    assert_eq!(u64_to_dec_string(7), "7");
    assert_eq!(u64_to_dec_string(120), "120");
    assert_eq!(u64_to_dec_string(u64::MAX), "18446744073709551615");
}

#[test]
fn child_identity_derivation() {
    assert_eq!(make_child_account(3, &"fac.near".to_string()), "quest-3.fac.near");
    assert_eq!(make_child_account(0, &"a.b".to_string()), "quest-0.a.b");
}

#[test]
fn account_identity_rules() {
    assert!(is_valid_account_id("ab"));
    assert!(is_valid_account_id("quest-0.factory.test"));
    assert!(is_valid_account_id("a1_b-c.d9"));
    assert!(!is_valid_account_id("a"));
    assert!(!is_valid_account_id("-ab"));
    assert!(!is_valid_account_id("ab-"));
    assert!(!is_valid_account_id("a..b"));
    assert!(!is_valid_account_id("a_-b"));
    assert!(!is_valid_account_id("Ab"));
    assert!(!is_valid_account_id("a b"));
    let long = "a".repeat(65);
    assert!(!is_valid_account_id(&long));
    let longest = "a".repeat(64);
    assert!(is_valid_account_id(&longest));
}

#[test]
fn rent_charges_and_refunds_exactly() {
    // cost = 4 bytes at rate 3 = 12.
    assert_eq!(refund_deposit(4, 20, 3), Ok(Some(8)));
    assert_eq!(refund_deposit(4, 14, 3), Ok(Some(2)));
    // A remainder at the dust threshold is kept, not refunded.
    assert_eq!(refund_deposit(4, 13, 3), Ok(None));
    assert_eq!(refund_deposit(4, 12, 3), Ok(None));
    assert_eq!(
        refund_deposit(4, 11, 3),
        Err(QuestError::InsufficientPayment)
    );
    // A zero delta costs nothing.
    assert_eq!(refund_deposit(0, 5, 3), Ok(Some(5)));
}

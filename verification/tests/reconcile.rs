//! Tests of the reconciliation decision, exact amount conversion, and the
//! end-to-end balance-correction scenario.

use import_ynab::currency::{CurrencyConverter, Rate};
use import_ynab::dates::Date;
use import_ynab::ynab::{convert_amount, convert_balance, reconcile_account, should_reconcile};
use import_ynab::SyncError;

#[test]
fn reconcile_decision_cases() {
    assert_eq!(should_reconcile(100, 100), false);
    assert_eq!(should_reconcile(0, 50), true);
    assert_eq!(should_reconcile(5000, 6500), true);
    assert_eq!(should_reconcile(10000, 10050), false);
    assert_eq!(should_reconcile(10000, 10200), true);
}

#[test]
fn reconcile_decision_more_cases() {
    assert_eq!(should_reconcile(50, 0), true);
    assert_eq!(should_reconcile(0, 0), false);
    // negative balances: ratio of -10050 to -10000 is 1.005, under the bar
    assert_eq!(should_reconcile(-10000, -10050), false);
    assert_eq!(should_reconcile(-10000, -10200), true);
}

#[test]
fn conversion_truncates_toward_zero() {
    let r = Rate { num: 900000, den: 1000000 };
    assert_eq!(convert_amount(1001, r).unwrap(), 900);
    assert_eq!(convert_amount(-1001, r).unwrap(), -900);
    assert_eq!(convert_amount(0, r).unwrap(), 0);
    let thirds = Rate { num: 1000000, den: 3000000 };
    assert_eq!(convert_amount(10, thirds).unwrap(), 3);
    assert_eq!(convert_amount(-10, thirds).unwrap(), -3);
}

#[test]
fn balance_conversion_rounds_to_nearest() {
    // Transaction amounts truncate; the expected balance rounds.
    let third = Rate { num: 1000000, den: 3000000 };
    assert_eq!(convert_amount(50000, third).unwrap(), 16666);
    assert_eq!(convert_balance(50000, third).unwrap(), 16667);
    let nine_tenths = Rate { num: 900000, den: 1000000 };
    assert_eq!(convert_balance(1001, nine_tenths).unwrap(), 901);
    assert_eq!(convert_balance(-1001, nine_tenths).unwrap(), -901);
    // a half rounds away from zero, on either sign
    let tenth = Rate { num: 1000000, den: 10000000 };
    assert_eq!(convert_balance(5, tenth).unwrap(), 1);
    assert_eq!(convert_balance(-5, tenth).unwrap(), -1);
    assert_eq!(convert_balance(4, tenth).unwrap(), 0);
}

#[test]
fn balance_conversion_errors_are_reported() {
    assert!(matches!(
        convert_balance(1, Rate { num: 1, den: 0 }),
        Err(SyncError::RateUnusable)
    ));
    assert!(matches!(
        convert_balance(i64::MAX, Rate { num: 2000000, den: 1000000 }),
        Err(SyncError::AmountOverflow)
    ));
}

#[test]
fn conversion_errors_are_reported() {
    assert!(matches!(
        convert_amount(1, Rate { num: 1, den: 0 }),
        Err(SyncError::RateUnusable)
    ));
    assert!(matches!(
        convert_amount(i64::MAX, Rate { num: 2000000, den: 1000000 }),
        Err(SyncError::AmountOverflow)
    ));
}

fn usd_table() -> CurrencyConverter {
    // One tracked currency; the cell makes rate(USD -> EUR) exactly
    // 1000000 / 1111111, i.e. 0.9 to the engine's truncation.
    let rows: Vec<Vec<String>> = vec![
        vec!["Date".to_string(), "USD".to_string()],
        vec!["2024-01-15".to_string(), "1.111111".to_string()],
    ];
    CurrencyConverter::from_rows(rows).unwrap()
}

#[test]
fn matching_balances_need_no_correction() {
    let cv = usd_table();
    let today = Date { year: 2024, month: 1, day: 15 };
    let r = reconcile_account(45000, 50000, "USD", "EUR", &cv, today, today, 1700000000);
    assert!(r.unwrap().is_none());
}

#[test]
fn drifted_balance_gets_one_correction() {
    let cv = usd_table();
    let today = Date { year: 2024, month: 1, day: 15 };
    let correction = reconcile_account(40000, 50000, "USD", "EUR", &cv, today, today, 1700000000)
        .unwrap()
        .unwrap();
    assert_eq!(correction.amount, 5000);
    assert!(correction.transaction_id.starts_with("correction_"));
    assert_eq!(correction.transaction_id, "correction_1700000000");
    assert_eq!(correction.payee_name.as_deref(), Some("Sync Reconciliation"));
    assert_eq!(correction.category.as_deref(), Some("Inflow: To be Budgeted"));
    assert_eq!(
        correction.description,
        "Reconciliation. 50.000 @ 1000000/1111111 = 45.000"
    );
    assert_eq!(correction.timestamp, today);
}

#[test]
fn expected_balance_is_rounded_not_truncated() {
    // rate(USD -> EUR) is exactly one third: 50000 milli-units convert to
    // 16666.67, and the expected balance takes the rounded 16667.
    let rows: Vec<Vec<String>> = vec![
        vec!["Date".to_string(), "USD".to_string()],
        vec!["2024-01-15".to_string(), "3".to_string()],
    ];
    let cv = CurrencyConverter::from_rows(rows).unwrap();
    let today = Date { year: 2024, month: 1, day: 15 };
    let correction = reconcile_account(0, 50000, "USD", "EUR", &cv, today, today, 7)
        .unwrap()
        .unwrap();
    assert_eq!(correction.amount, 16667);
    assert_eq!(
        correction.description,
        "Reconciliation. 50.000 @ 1000000/3000000 = 16.667"
    );
}

#[test]
fn missing_rate_is_fatal_for_the_account() {
    let rows: Vec<Vec<String>> = vec![vec!["Date".to_string(), "USD".to_string()]];
    let cv = CurrencyConverter::from_rows(rows).unwrap();
    let today = Date { year: 2024, month: 1, day: 15 };
    let r = reconcile_account(45000, 50000, "USD", "EUR", &cv, today, today, 0);
    assert!(matches!(r, Err(SyncError::MissingRate)));
}

//! Tests of the chunked import plan: batch cutting, payee collapsing, and
//! the full per-account pipeline.

use import_ynab::currency::CurrencyConverter;
use import_ynab::dates::Date;
use import_ynab::matcher::AccountMap;
use import_ynab::ynab::api::{Account, Payee};
use import_ynab::ynab::{build_import_chunks, prepare_import};
use import_ynab::Transaction;

fn tx(n: u64) -> Transaction {
    Transaction {
        transaction_id: format!("t{}", n),
        timestamp: Date { year: 2024, month: 1, day: 15 },
        amount: 1000 + n as i64,
        description: format!("purchase {}", n),
        payee_name: None,
        category: None,
    }
}

#[test]
fn one_hundred_twenty_transactions_make_three_calls() {
    let trans: Vec<Transaction> = (0..120).map(tx).collect();
    let no_payees: Vec<Payee> = Vec::new();
    let chunks = build_import_chunks("acc-1", &no_payees, &trans);
    assert_eq!(chunks.len(), 3);
    assert_eq!(chunks[0].transactions.len(), 50);
    assert_eq!(chunks[1].transactions.len(), 50);
    assert_eq!(chunks[2].transactions.len(), 20);
    for chunk in &chunks {
        for t in &chunk.transactions {
            assert_eq!(t.account_id, "acc-1");
        }
    }
    // order is kept across the chunk boundaries
    assert_eq!(chunks[1].transactions[0].import_id.as_deref(), Some("t50"));
    assert_eq!(chunks[2].transactions[19].import_id.as_deref(), Some("t119"));
}

#[test]
fn an_empty_batch_issues_no_call() {
    let no_payees: Vec<Payee> = Vec::new();
    let none: Vec<Transaction> = Vec::new();
    let chunks = build_import_chunks("acc-1", &no_payees, &none);
    assert_eq!(chunks.len(), 0);
}

#[test]
fn exactly_fifty_fit_one_call() {
    let trans: Vec<Transaction> = (0..50).map(tx).collect();
    let no_payees: Vec<Payee> = Vec::new();
    let chunks = build_import_chunks("acc-1", &no_payees, &trans);
    assert_eq!(chunks.len(), 1);
    assert_eq!(chunks[0].transactions.len(), 50);
}

#[test]
fn import_fields_carry_over() {
    let mut t = tx(7);
    t.payee_name = Some("Shop".to_string());
    t.category = Some("Groceries".to_string());
    let no_payees: Vec<Payee> = Vec::new();
    let chunks = build_import_chunks("acc-9", &no_payees, &vec![t]);
    let nt = &chunks[0].transactions[0];
    assert_eq!(nt.date, "2024-01-15");
    assert_eq!(nt.amount, 1007);
    assert_eq!(nt.payee_name.as_deref(), Some("Shop"));
    assert_eq!(nt.payee_id, None);
    assert_eq!(nt.memo, "purchase 7");
    assert_eq!(nt.cleared, "cleared");
    assert_eq!(nt.import_id.as_deref(), Some("t7"));
    assert_eq!(nt.category_name.as_deref(), Some("Groceries"));
}

#[test]
fn payee_matching_a_transfer_collapses_to_its_id() {
    let payees = vec![
        Payee {
            id: "p-1".to_string(),
            name: "Transfer: Savings".to_string(),
            transfer_account_id: Some("ledger-sav".to_string()),
        },
        Payee { id: "p-2".to_string(), name: "Grocer".to_string(), transfer_account_id: None },
    ];
    let mut t = tx(1);
    t.payee_name = Some("ledger-sav".to_string());
    let chunks = build_import_chunks("acc-1", &payees, &vec![t]);
    let nt = &chunks[0].transactions[0];
    assert_eq!(nt.payee_id.as_deref(), Some("p-1"));
    assert_eq!(nt.payee_name, None);
}

#[test]
fn pipeline_converts_resolves_and_chunks() {
    let rows: Vec<Vec<String>> = vec![
        vec!["Date".to_string(), "USD".to_string()],
        vec!["2024-01-15".to_string(), "2".to_string()],
    ];
    let cv = CurrencyConverter::from_rows(rows).unwrap();
    let ledger = vec![Account {
        id: "ledger-other".to_string(),
        name: "Other".to_string(),
        note: Some("ACCOUNT_ID=\"pocket-2\"".to_string()),
        balance: 0,
    }];
    let map = AccountMap::build(&ledger);
    let mut t = tx(3);
    t.payee_name = Some("pocket-2".to_string());
    let payees = vec![Payee {
        id: "p-7".to_string(),
        name: "Transfer: Other".to_string(),
        transfer_account_id: Some("ledger-other".to_string()),
    }];
    let chunks = prepare_import(vec![t], &cv, "USD", "EUR", &map, "acc-1", &payees).unwrap();
    assert_eq!(chunks.len(), 1);
    let nt = &chunks[0].transactions[0];
    // 1003 milli-USD at rate 1/2 truncates to 501 milli-EUR
    assert_eq!(nt.amount, 501);
    // payee resolved pocket-2 -> ledger-other, then collapsed to the payee id
    assert_eq!(nt.payee_id.as_deref(), Some("p-7"));
    assert_eq!(nt.payee_name, None);
    assert_eq!(nt.account_id, "acc-1");
}

#[test]
fn pipeline_fails_without_a_rate() {
    let cv = CurrencyConverter::from_rows(vec![vec!["Date".to_string(), "USD".to_string()]])
        .unwrap();
    let no_accounts: Vec<Account> = Vec::new();
    let map = AccountMap::build(&no_accounts);
    let no_payees: Vec<Payee> = Vec::new();
    let r = prepare_import(vec![tx(1)], &cv, "USD", "EUR", &map, "acc-1", &no_payees);
    assert!(matches!(r, Err(import_ynab::SyncError::MissingRate)));
}

#[test]
fn same_currency_batch_passes_through_unconverted() {
    let no_payees: Vec<Payee> = Vec::new();
    let cv = CurrencyConverter::from_rows(Vec::new()).unwrap();
    let no_accounts: Vec<Account> = Vec::new();
    let map = AccountMap::build(&no_accounts);
    let chunks = prepare_import(vec![tx(4)], &cv, "eur", "EUR", &map, "acc-1", &no_payees)
        .unwrap();
    assert_eq!(chunks[0].transactions[0].amount, 1004);
}

//! Tests of the provider-specific shaping rules: scaling, sign flips,
//! filtering, and payee inference.

use import_ynab::dates::Date;
use import_ynab::revolut;
use import_ynab::truelayer;
use import_ynab::AccountType;

fn day() -> Date {
    Date { year: 2024, month: 2, day: 3 }
}

fn rev_tx(id: &str, pocket: &str, ty: &str) -> revolut::api::Transaction {
    revolut::api::Transaction {
        id: id.to_string(),
        date: day(),
        account: revolut::api::TransactionAccount { id: pocket.to_string() },
        amount: 250,
        description: Some(format!("description of {}", id)),
        merchant: None,
        beneficiary: None,
        entry_mode: None,
        ty: ty.to_string(),
        tag: None,
        direction: None,
        counterpart: None,
        state: None,
    }
}

fn no_beneficiaries() -> revolut::api::Beneficiaries {
    revolut::api::Beneficiaries { beneficiaries: Vec::new() }
}

#[test]
fn pockets_become_asset_accounts_in_milli_units() {
    let wallet = revolut::api::Accounts {
        pockets: vec![revolut::api::Account {
            id: "pocket-1".to_string(),
            balance: 12345,
            currency: "USD".to_string(),
        }],
    };
    let accounts = revolut::shape_accounts(&wallet);
    assert_eq!(accounts.len(), 1);
    assert_eq!(accounts[0].account_id, "pocket-1");
    assert_eq!(accounts[0].balance, 123450);
    assert_eq!(accounts[0].currency, "USD");
    assert_eq!(accounts[0].display_name, "USD");
    assert_eq!(accounts[0].ty, AccountType::Account);
}

#[test]
fn listing_is_filtered_to_the_pocket_and_settled_records() {
    let mut sell = rev_tx("sell", "p1", "EXCHANGE");
    sell.direction = Some("sell".to_string());
    let mut buy = rev_tx("buy", "p1", "EXCHANGE");
    buy.direction = Some("buy".to_string());
    let mut failed = rev_tx("failed", "p1", "CARD_PAYMENT");
    failed.state = Some("FAILED".to_string());
    let mut done = rev_tx("done", "p1", "CARD_PAYMENT");
    done.state = Some("COMPLETED".to_string());
    let mut pending = rev_tx("pending", "p1", "CARD_PAYMENT");
    pending.state = Some("PENDING".to_string());
    let elsewhere = rev_tx("elsewhere", "p2", "TOPUP");
    let listing = vec![sell, buy, failed, done, pending, elsewhere];
    let shaped = revolut::shape_transactions(&listing, &no_beneficiaries(), "p1");
    let ids: Vec<&str> = shaped.iter().map(|t| t.transaction_id.as_str()).collect();
    assert_eq!(ids, vec!["buy", "done", "pending"]);
    // centi-units scale to milli-units
    assert_eq!(shaped[0].amount, 2500);
}

#[test]
fn merchant_name_wins_as_payee() {
    let mut t = rev_tx("m", "p1", "CARD_PAYMENT");
    t.state = Some("COMPLETED".to_string());
    t.merchant = Some(revolut::api::TransactionMerchant { name: "Grocer".to_string() });
    let shaped = revolut::shape_transactions(&vec![t], &no_beneficiaries(), "p1");
    assert_eq!(shaped[0].payee_name.as_deref(), Some("Grocer"));
}

#[test]
fn beneficiary_payee_is_the_full_name() {
    let mut t = rev_tx("b", "p1", "TRANSFER");
    t.beneficiary = Some(revolut::api::TransactionBeneficiary { id: "ben-1".to_string() });
    let bens = revolut::api::Beneficiaries {
        beneficiaries: vec![revolut::api::Beneficiary {
            id: "ben-1".to_string(),
            first_name: "Ada".to_string(),
            last_name: "Lovelace".to_string(),
        }],
    };
    let shaped = revolut::shape_transactions(&vec![t], &bens, "p1");
    assert_eq!(shaped[0].payee_name.as_deref(), Some("Ada Lovelace"));

    let mut unknown = rev_tx("b2", "p1", "TRANSFER");
    unknown.beneficiary = Some(revolut::api::TransactionBeneficiary { id: "ben-9".to_string() });
    let shaped2 = revolut::shape_transactions(&vec![unknown], &bens, "p1");
    assert_eq!(shaped2[0].payee_name, None);
}

#[test]
fn topup_payees_lose_their_prefix() {
    let mut t = rev_tx("t", "p1", "TOPUP");
    t.description = Some("Payment from Jane Doe".to_string());
    let shaped = revolut::shape_transactions(&vec![t], &no_beneficiaries(), "p1");
    assert_eq!(shaped[0].payee_name.as_deref(), Some("Jane Doe"));

    let mut gp = rev_tx("g", "p1", "TOPUP");
    gp.entry_mode = Some("GOOGLE_PAY".to_string());
    let shaped2 = revolut::shape_transactions(&vec![gp], &no_beneficiaries(), "p1");
    assert_eq!(shaped2[0].payee_name.as_deref(), Some("Google Pay Topup"));
}

#[test]
fn fee_payees_depend_on_the_tag() {
    let mut fee = rev_tx("f", "p1", "FEE");
    fee.tag = Some("insurance".to_string());
    let shaped = revolut::shape_transactions(&vec![fee], &no_beneficiaries(), "p1");
    assert_eq!(shaped[0].payee_name.as_deref(), Some("Revolut Insurance"));

    let plain = rev_tx("f2", "p1", "FEE");
    let shaped2 = revolut::shape_transactions(&vec![plain], &no_beneficiaries(), "p1");
    assert_eq!(shaped2[0].payee_name.as_deref(), Some("Revolut"));
}

#[test]
fn exchange_payee_is_the_counterpart_pocket() {
    let mut x = rev_tx("x", "p1", "EXCHANGE");
    x.direction = Some("buy".to_string());
    x.counterpart = Some(revolut::api::TransactionCounterpart {
        account: Some(revolut::api::TransactionAccount { id: "p2".to_string() }),
    });
    let shaped = revolut::shape_transactions(&vec![x], &no_beneficiaries(), "p1");
    assert_eq!(shaped[0].payee_name.as_deref(), Some("p2"));
}

fn tl_tx(id: &str, amount: i64, merchant: Option<&str>, description: &str) -> truelayer::api::Transaction {
    truelayer::api::Transaction {
        transaction_id: id.to_string(),
        timestamp: day(),
        amount,
        description: description.to_string(),
        merchant_name: merchant.map(|m| m.to_string()),
    }
}

#[test]
fn bank_accounts_and_cards_shape_their_balances() {
    let acc = truelayer::api::Account {
        account_id: "a1".to_string(),
        account_type: "TRANSACTION".to_string(),
        display_name: "Main".to_string(),
        currency: "GBP".to_string(),
        account_number: truelayer::api::AccountNumber {
            iban: None,
            number: None,
            sort_code: None,
            swift_bic: None,
        },
        provider: truelayer::api::Provider {
            display_name: "A Bank".to_string(),
            logo_uri: String::new(),
            provider_id: "bank".to_string(),
        },
    };
    let shaped = truelayer::account_from_parts(&acc, 55000);
    assert_eq!(shaped.balance, 55000);
    assert_eq!(shaped.ty, AccountType::Account);

    let card = truelayer::api::Card {
        account_id: "c1".to_string(),
        display_name: "Card".to_string(),
        currency: "GBP".to_string(),
        partial_card_number: "1234".to_string(),
        name_on_card: "J DOE".to_string(),
    };
    let shaped_card = truelayer::card_from_parts(&card, 20000);
    assert_eq!(shaped_card.balance, -20000);
    assert_eq!(shaped_card.ty, AccountType::Card);
}

#[test]
fn card_transaction_amounts_flip_sign() {
    let listing = vec![tl_tx("t1", 12500, None, "COFFEE SHOP 42")];
    let shaped = truelayer::shape_transactions(&listing, true);
    assert_eq!(shaped[0].amount, -12500);
    let unflipped = truelayer::shape_transactions(&listing, false);
    assert_eq!(unflipped[0].amount, 12500);
}

#[test]
fn payee_is_merchant_or_first_word() {
    let with_merchant = vec![tl_tx("t1", 100, Some("Cafe"), "CARD 1234 Cafe")];
    assert_eq!(
        truelayer::shape_transactions(&with_merchant, false)[0].payee_name.as_deref(),
        Some("Cafe")
    );
    let without = vec![tl_tx("t2", 100, None, "  TESCO STORES 3297")];
    assert_eq!(
        truelayer::shape_transactions(&without, false)[0].payee_name.as_deref(),
        Some("TESCO")
    );
    let blank = vec![tl_tx("t3", 100, None, "   ")];
    assert_eq!(truelayer::shape_transactions(&blank, false)[0].payee_name, None);
}

#[test]
fn display_name_fills_missing_consent_fields() {
    let named = truelayer::provider_display_name(
        "A Bank",
        "J Doe",
        &Some("AUTHORISED".to_string()),
        &None,
        "client-1",
    );
    assert_eq!(named, "A Bank J Doe AUTHORISED no expiry client-1");
    let bare = truelayer::provider_display_name("A Bank", "J Doe", &None, &None, "client-1");
    assert_eq!(bare, "A Bank J Doe no status no expiry client-1");
}

#[test]
fn one_usable_listing_is_enough() {
    let both: Result<(Option<u32>, Option<u32>), &str> =
        truelayer::keep_usable_listings(Ok(1), Ok(2));
    assert_eq!(both.unwrap(), (Some(1), Some(2)));
    let accounts_only: Result<(Option<u32>, Option<u32>), &str> =
        truelayer::keep_usable_listings(Ok(1), Err("cards down"));
    assert_eq!(accounts_only.unwrap(), (Some(1), None));
    let cards_only: Result<(Option<u32>, Option<u32>), &str> =
        truelayer::keep_usable_listings(Err("accounts down"), Ok(2));
    assert_eq!(cards_only.unwrap(), (None, Some(2)));
    let neither: Result<(Option<u32>, Option<u32>), &str> =
        truelayer::keep_usable_listings::<u32, u32, &str>(Err("accounts down"), Err("cards down"));
    assert_eq!(neither.unwrap_err(), "accounts down");
}

#[test]
fn token_refresh_is_due_at_expiry() {
    assert_eq!(truelayer::token_expired(100, 200), false);
    assert_eq!(truelayer::token_expired(200, 200), true);
    assert_eq!(truelayer::token_expired(300, 200), true);
    assert_eq!(truelayer::calculate_expiry_time(1700000000, 3600), 1700003600);
}

//! The open-banking provider's side of the engine: its stored token, the
//! decision when that token must be refreshed, and the shaping of its
//! accounts and transactions into the engine's normalized forms. The OAuth
//! exchange and the wire calls themselves live outside the library.

pub mod api;

use crate::text;
use crate::AccountType;
use crate::Transaction;
use vstd::prelude::*;

verus! {

/// A stored provider connection: the tokens and when the access token runs
/// out, as a Unix timestamp in seconds.
#[derive(Debug)]
pub struct Token {
    pub display_name: String,
    pub access_token: String,
    pub access_token_expiry: i64,
    pub refresh_token: String,
}

/// Whether a stored access token must be refreshed before use: only once
/// the current time has reached its expiry.
pub fn token_expired(now_unix: i64, expiry_unix: i64) -> (r: bool)
    ensures
        r == (now_unix >= expiry_unix),
{
    now_unix >= expiry_unix
}

/// When a token granted now for `expires_in` seconds runs out.
pub fn calculate_expiry_time(now_unix: i64, expires_in: u64) -> (r: i64)
    requires
        now_unix + expires_in <= i64::MAX,
    ensures
        r == now_unix + expires_in,
{
    ((now_unix as i128) + (expires_in as i128)) as i64
}

/// The display name a tested connection takes: the bank's name, the
/// holder's name, the consent status and expiry (with fixed words where the
/// provider reported none), and the client id, space-separated.
pub open spec fn spec_provider_display_name(
    provider_name: Seq<char>,
    full_name: Seq<char>,
    consent_status: Option<Seq<char>>,
    consent_expires_at: Option<Seq<char>>,
    client_id: Seq<char>,
) -> Seq<char> {
    provider_name + " "@ + full_name + " "@ + (match consent_status {
        Some(s) => s,
        None => "no status"@,
    }) + " "@ + (match consent_expires_at {
        Some(e) => e,
        None => "no expiry"@,
    }) + " "@ + client_id
}

/// Assembles the display name of a tested connection.
pub fn provider_display_name(
    provider_name: &str,
    full_name: &str,
    consent_status: &Option<String>,
    consent_expires_at: &Option<String>,
    client_id: &str,
) -> (r: String)
    ensures
        r@ == spec_provider_display_name(
            provider_name@,
            full_name@,
            match *consent_status {
                Some(s) => Some(s@),
                None => None,
            },
            match *consent_expires_at {
                Some(e) => Some(e@),
                None => None,
            },
            client_id@,
        ),
{
    let mut r: String = String::from_str(provider_name);
    r.append(" ");
    r.append(full_name);
    r.append(" ");
    match consent_status {
        Some(s) => r.append(s.as_str()),
        None => r.append("no status"),
    }
    r.append(" ");
    match consent_expires_at {
        Some(e) => r.append(e.as_str()),
        None => r.append("no expiry"),
    }
    r.append(" ");
    r.append(client_id);
    r
}

/// Which listings an account fetch keeps when the provider answers the
/// account and card queries separately: both failing is fatal, with the
/// account listing's error; otherwise whichever side succeeded is worked
/// with and the other is simply absent.
pub fn keep_usable_listings<A, C, E>(accounts: Result<A, E>, cards: Result<C, E>) -> (r: Result<
    (Option<A>, Option<C>),
    E,
>)
    ensures
        match r {
            Err(e) => accounts is Err && cards is Err && e == accounts->Err_0,
            Ok(pair) => {
                &&& !(accounts is Err && cards is Err)
                &&& pair.0 == (match accounts {
                    Ok(a) => Some(a),
                    Err(_) => None::<A>,
                })
                &&& pair.1 == (match cards {
                    Ok(c) => Some(c),
                    Err(_) => None::<C>,
                })
            },
        },
{
    match (accounts, cards) {
        (Err(a), Err(_b)) => Err(a),
        (a, c) => Ok(
            (
                match a {
                    Ok(x) => Some(x),
                    Err(_) => None,
                },
                match c {
                    Ok(x) => Some(x),
                    Err(_) => None,
                },
            ),
        ),
    }
}

/// The engine's account for one listed bank account: an asset account with
/// the given balance.
pub fn account_from_parts(acc: &api::Account, balance_milli: i64) -> (r: crate::Account)
    ensures
        r@.account_id == acc.account_id@,
        r@.currency == acc.currency@,
        r@.display_name == acc.display_name@,
        r@.ty == AccountType::Account,
        r@.balance == balance_milli as int,
{
    crate::Account {
        account_id: acc.account_id.clone(),
        currency: acc.currency.clone(),
        display_name: acc.display_name.clone(),
        ty: AccountType::Account,
        balance: balance_milli,
    }
}

/// The engine's account for one listed card: a liability, so the reported
/// balance flips sign.
pub fn card_from_parts(card: &api::Card, balance_milli: i64) -> (r: crate::Account)
    requires
        balance_milli != i64::MIN,
    ensures
        r@.account_id == card.account_id@,
        r@.currency == card.currency@,
        r@.display_name == card.display_name@,
        r@.ty == AccountType::Card,
        r@.balance == -(balance_milli as int),
{
    crate::Account {
        account_id: card.account_id.clone(),
        currency: card.currency.clone(),
        display_name: card.display_name.clone(),
        ty: AccountType::Card,
        balance: -balance_milli,
    }
}

/// One provider transaction in the engine's normalized shape: a card's
/// amount flips sign, and the payee is the merchant where one is named,
/// else the first word of the description.
pub open spec fn spec_shaped_transaction(t: api::TransactionV, is_card: bool) -> crate::TransactionView {
    crate::TransactionView {
        transaction_id: t.transaction_id,
        timestamp: t.timestamp,
        amount: if is_card {
            -t.amount
        } else {
            t.amount
        },
        description: t.description,
        payee_name: match t.merchant_name {
            Some(m) => Some(m),
            None => text::first_word(t.description),
        },
        category: None,
    }
}

/// Shapes one account's (or card's) transactions for the engine, in the
/// provider's order.
#[verifier::loop_isolation(false)]
pub fn shape_transactions(results: &Vec<api::Transaction>, is_card: bool) -> (r: Vec<Transaction>)
    requires
        is_card ==> forall|i: int|
            0 <= i < results@.len() ==> (#[trigger] results@[i]).amount != i64::MIN,
    ensures
        r@.len() == results@.len(),
        forall|i: int|
            0 <= i < r@.len() ==> (#[trigger] r@[i])@ == spec_shaped_transaction(
                results@[i]@,
                is_card,
            ),
{
    let mut out: Vec<Transaction> = Vec::new();
    let mut i: usize = 0;
    while i < results.len()
        invariant
            i <= results.len(),
            out@.len() == i,
            forall|j: int|
                0 <= j < i ==> (#[trigger] out@[j])@ == spec_shaped_transaction(
                    results@[j]@,
                    is_card,
                ),
        decreases results.len() - i,
    {
        let t: &api::Transaction = &results[i];
        let payee_name: Option<String> = match &t.merchant_name {
            Some(m) => Some(m.clone()),
            None => text::split_first_word(t.description.as_str()),
        };
        let amount: i64 = if is_card {
            -t.amount
        } else {
            t.amount
        };
        out.push(
            Transaction {
                transaction_id: t.transaction_id.clone(),
                timestamp: t.timestamp,
                amount,
                description: t.description.clone(),
                payee_name,
                category: None,
            },
        );
        i = i + 1;
    }
    out
}

} // verus!

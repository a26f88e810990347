//! The data shapes of the open-banking provider's replies, as plain values.
//! Balances and amounts arrive here already in milli-units; turning the
//! wire's decimal numbers into milli-units is the transport's work.

use crate::dates::Date;
use vstd::prelude::*;

verus! {

/// What the provider reports about an access token.
#[derive(Debug, Clone)]
pub struct AccessTokenMetadata {
    pub client_id: String,
    pub consent_status: Option<String>,
    pub consent_created_at: Option<String>,
    pub consent_expires_at: Option<String>,
    pub provider: Provider,
}

/// The account holder's identity.
#[derive(Debug, Clone)]
pub struct Identity {
    pub full_name: String,
    pub emails: Vec<String>,
    pub phones: Vec<String>,
}

/// One bank account as the provider lists it.
#[derive(Debug, Clone)]
pub struct Account {
    pub account_id: String,
    pub account_type: String,
    pub display_name: String,
    pub currency: String,
    pub account_number: AccountNumber,
    pub provider: Provider,
}

/// One card as the provider lists it.
#[derive(Debug, Clone)]
pub struct Card {
    pub account_id: String,
    pub display_name: String,
    pub currency: String,
    pub partial_card_number: String,
    pub name_on_card: String,
}

/// An account's numbers, whichever scheme the bank uses.
#[derive(Debug, Clone)]
pub struct AccountNumber {
    pub iban: Option<String>,
    pub number: Option<String>,
    pub sort_code: Option<String>,
    pub swift_bic: Option<String>,
}

/// The bank behind an account.
#[derive(Debug, Clone)]
pub struct Provider {
    pub display_name: String,
    pub logo_uri: String,
    pub provider_id: String,
}

/// One transaction as the provider reports it, its amount in milli-units.
#[derive(Debug, Clone)]
pub struct Transaction {
    pub transaction_id: String,
    pub timestamp: Date,
    pub amount: i64,
    pub description: String,
    pub merchant_name: Option<String>,
}

/// A reply carrying token metadata.
pub struct AccessTokenMetadataResponse {
    pub results: Vec<AccessTokenMetadata>,
}

/// A reply carrying identities.
pub struct IdentityResponse {
    pub results: Vec<Identity>,
}

/// A reply carrying accounts.
pub struct AccountsResponse {
    pub results: Vec<Account>,
}

/// A reply carrying cards.
pub struct CardsResponse {
    pub results: Vec<Card>,
}

/// A reply carrying an account's transactions.
pub struct TransactionsResponse {
    pub results: Vec<Transaction>,
}

/// A reply carrying a card's transactions.
pub struct CardTransactionsResponse {
    pub results: Vec<Transaction>,
}

/// The mathematical value of a provider `Transaction`.
pub struct TransactionV {
    pub transaction_id: Seq<char>,
    pub timestamp: Date,
    pub amount: int,
    pub description: Seq<char>,
    pub merchant_name: Option<Seq<char>>,
}

impl View for Transaction {
    type V = TransactionV;

    open spec fn view(&self) -> TransactionV {
        TransactionV {
            transaction_id: self.transaction_id@,
            timestamp: self.timestamp,
            amount: self.amount as int,
            description: self.description@,
            merchant_name: match self.merchant_name {
                Option::Some(m) => Option::Some(m@),
                Option::None => Option::None,
            },
        }
    }
}

} // verus!

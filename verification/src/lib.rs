//! Synchronizes transaction and balance data from external financial-account
//! providers into a budgeting ledger.
//!
//! The verified core covers the historical exchange-rate table with its
//! seven-day date fallback, the matching of ledger accounts to provider
//! accounts through `ACCOUNT_ID="..."` markers embedded in account notes,
//! the transformation and chunking of transactions for import, and the
//! decision whether a balance-correction entry must be posted.

pub mod config;
pub mod currency;
pub mod dates;
pub mod matcher;
pub mod revolut;
pub mod text;
pub mod truelayer;
pub mod ynab;

use vstd::prelude::*;

verus! {

/// A provider-side account, created per sync run from a provider response.
/// `balance` is in milli-units (fixed point, three decimal places) of the
/// account's own currency.
#[derive(Debug)]
pub struct Account {
    pub account_id: String,
    pub currency: String,
    pub display_name: String,
    pub ty: AccountType,
    pub balance: i64,
}

/// Whether a provider account is an ordinary (asset) account or a card
/// (liability) account.
#[derive(Debug, Clone, Copy, PartialEq, Eq, Structural)]
pub enum AccountType {
    Account,
    Card,
}

/// What can go wrong while the engine runs. Archive and record errors carry
/// what the decompressor or the record reader reported; the other variants
/// are the engine's own.
#[derive(Debug)]
pub enum SyncError {
    /// The rate archive could not be decompressed.
    Archive(zip::result::ZipError),
    /// The rate data could not be split into records.
    Records(csv::Error),
    /// A rate row's date cell is not a valid `YYYY-MM-DD` date.
    InvalidRateDate,
    /// No rate row exists within the seven-day fallback window.
    MissingRate,
    /// The rate found has a zero part, so no amount can be converted with it.
    RateUnusable,
    /// A converted amount does not fit the ledger's integer range.
    AmountOverflow,
    /// A provider call failed; the message is the provider's.
    Provider(String),
}

/// A source of accounts and transactions: one connected provider. The
/// engine is handed implementations from outside; their transaction-shaping
/// rules are their own.
pub trait ConnectedProvider {
    fn get_accounts(&mut self) -> Result<Vec<Account>, SyncError>;

    fn get_transactions(&mut self, acc: &Account) -> Result<Vec<Transaction>, SyncError>;
}

/// A normalized transaction ready for import. `amount` is in milli-units,
/// signed, positive for inflows. `transaction_id` is the ledger's
/// idempotency key and must be unique within one account's import batch.
#[derive(Debug)]
pub struct Transaction {
    pub transaction_id: String,
    pub timestamp: dates::Date,
    pub amount: i64,
    pub description: String,
    pub payee_name: Option<String>,
    pub category: Option<String>,
}

/// The mathematical value of an `Account`.
pub struct AccountView {
    pub account_id: Seq<char>,
    pub currency: Seq<char>,
    pub display_name: Seq<char>,
    pub ty: AccountType,
    pub balance: int,
}

impl View for Account {
    type V = AccountView;

    open spec fn view(&self) -> AccountView {
        AccountView {
            account_id: self.account_id@,
            currency: self.currency@,
            display_name: self.display_name@,
            ty: self.ty,
            balance: self.balance as int,
        }
    }
}

/// The mathematical value of a `Transaction`.
pub struct TransactionView {
    pub transaction_id: Seq<char>,
    pub timestamp: dates::Date,
    pub amount: int,
    pub description: Seq<char>,
    pub payee_name: Option<Seq<char>>,
    pub category: Option<Seq<char>>,
}

impl View for Transaction {
    type V = TransactionView;

    open spec fn view(&self) -> TransactionView {
        TransactionView {
            transaction_id: self.transaction_id@,
            timestamp: self.timestamp,
            amount: self.amount as int,
            description: self.description@,
            payee_name: match self.payee_name {
                Option::Some(p) => Option::Some(p@),
                Option::None => Option::None,
            },
            category: match self.category {
                Option::Some(c) => Option::Some(c@),
                Option::None => Option::None,
            },
        }
    }
}

/// The views of a sequence of transactions.
pub open spec fn transaction_views(s: Seq<Transaction>) -> Seq<TransactionView> {
    s.map_values(|t: Transaction| t@)
}

} // verus!

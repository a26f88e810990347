//! The ledger's data shapes: what its replies carry and what its import
//! call takes. The transport lives outside the library; these are the plain
//! values the engine reads and builds.

use vstd::prelude::*;

verus! {

/// A budget: its identity and the currency all its amounts are in.
#[derive(Debug, Clone)]
pub struct Budget {
    pub id: String,
    pub name: String,
    pub currency_format: BudgetCurrency,
}

/// The currency a budget works in, as an ISO code.
#[derive(Debug, Clone)]
pub struct BudgetCurrency {
    pub iso_code: String,
}

/// A reply carrying every budget.
pub struct BudgetsResponse {
    pub budgets: Vec<Budget>,
}

/// A reply carrying one budget.
pub struct BudgetResponse {
    pub budget: Budget,
}

/// A ledger account. Its free-text `note` may embed a provider binding as
/// the literal substring `ACCOUNT_ID="<provider account id>"`; `balance` is
/// in the ledger's milli-units.
#[derive(Debug, Clone)]
pub struct Account {
    pub id: String,
    pub name: String,
    pub note: Option<String>,
    pub balance: i64,
}

/// A ledger payee. One standing for a transfer to an account carries that
/// account's id in `transfer_account_id`.
#[derive(Debug, Clone)]
pub struct Payee {
    pub id: String,
    pub name: String,
    pub transfer_account_id: Option<String>,
}

/// A reply carrying every payee.
pub struct PayeesResponse {
    pub payees: Vec<Payee>,
}

/// A reply carrying every account.
pub struct AccountsResponse {
    pub accounts: Vec<Account>,
}

/// A reply carrying one account.
pub struct AccountResponse {
    pub account: Account,
}

/// One transaction as the ledger's import call takes it. `payee_name` and
/// `payee_id` are mutually exclusive; `import_id` is the idempotency key.
#[derive(Debug)]
pub struct NewTransaction {
    pub account_id: String,
    pub date: String,
    pub amount: i64,
    pub payee_name: Option<String>,
    pub payee_id: Option<String>,
    pub memo: String,
    pub cleared: String,
    pub import_id: Option<String>,
    pub category_name: Option<String>,
}

/// One import call's worth of transactions, at most fifty.
#[derive(Debug)]
pub struct NewTransactions {
    pub transactions: Vec<NewTransaction>,
}

/// The envelope every ledger reply wraps its data in.
pub struct Wrapper<T> {
    pub data: T,
}

/// The mathematical value of a ledger `Account`.
pub struct AccountV {
    pub id: Seq<char>,
    pub name: Seq<char>,
    pub note: Option<Seq<char>>,
    pub balance: int,
}

impl View for Account {
    type V = AccountV;

    open spec fn view(&self) -> AccountV {
        AccountV {
            id: self.id@,
            name: self.name@,
            note: match self.note {
                Option::Some(n) => Option::Some(n@),
                Option::None => Option::None,
            },
            balance: self.balance as int,
        }
    }
}

/// The mathematical value of a `Payee`.
pub struct PayeeV {
    pub id: Seq<char>,
    pub name: Seq<char>,
    pub transfer_account_id: Option<Seq<char>>,
}

impl View for Payee {
    type V = PayeeV;

    open spec fn view(&self) -> PayeeV {
        PayeeV {
            id: self.id@,
            name: self.name@,
            transfer_account_id: match self.transfer_account_id {
                Option::Some(t) => Option::Some(t@),
                Option::None => Option::None,
            },
        }
    }
}

/// The mathematical value of a `NewTransaction`.
pub struct NewTransactionV {
    pub account_id: Seq<char>,
    pub date: Seq<char>,
    pub amount: int,
    pub payee_name: Option<Seq<char>>,
    pub payee_id: Option<Seq<char>>,
    pub memo: Seq<char>,
    pub cleared: Seq<char>,
    pub import_id: Option<Seq<char>>,
    pub category_name: Option<Seq<char>>,
}

impl View for NewTransaction {
    type V = NewTransactionV;

    open spec fn view(&self) -> NewTransactionV {
        NewTransactionV {
            account_id: self.account_id@,
            date: self.date@,
            amount: self.amount as int,
            payee_name: match self.payee_name {
                Option::Some(p) => Option::Some(p@),
                Option::None => Option::None,
            },
            payee_id: match self.payee_id {
                Option::Some(p) => Option::Some(p@),
                Option::None => Option::None,
            },
            memo: self.memo@,
            cleared: self.cleared@,
            import_id: match self.import_id {
                Option::Some(p) => Option::Some(p@),
                Option::None => Option::None,
            },
            category_name: match self.category_name {
                Option::Some(p) => Option::Some(p@),
                Option::None => Option::None,
            },
        }
    }
}

/// The views of a sequence of payees.
pub open spec fn payee_views(s: Seq<Payee>) -> Seq<PayeeV> {
    s.map_values(|p: Payee| p@)
}

/// The views of a sequence of ledger accounts.
pub open spec fn account_views(s: Seq<Account>) -> Seq<AccountV> {
    s.map_values(|a: Account| a@)
}

/// The views of a sequence of import transactions.
pub open spec fn new_transaction_views(s: Seq<NewTransaction>) -> Seq<NewTransactionV> {
    s.map_values(|t: NewTransaction| t@)
}

} // verus!

//! The e-money provider's data shapes, as plain values. Timestamps arrive
//! here already as calendar days; milli-unit scaling of the provider's
//! centi-unit amounts is the shaping's work.

use crate::dates::Date;
use vstd::prelude::*;

verus! {

/// The provider's wallet: its pockets, one per currency.
#[derive(Debug, Clone)]
pub struct Accounts {
    pub pockets: Vec<Account>,
}

/// One pocket: its balance is in the provider's centi-units.
#[derive(Debug, Clone)]
pub struct Account {
    pub id: String,
    pub balance: i64,
    pub currency: String,
}

/// A saved counterparty.
#[derive(Debug, Clone)]
pub struct Beneficiary {
    pub id: String,
    pub first_name: String,
    pub last_name: String,
}

/// Every saved counterparty.
#[derive(Debug, Clone)]
pub struct Beneficiaries {
    pub beneficiaries: Vec<Beneficiary>,
}

/// A transaction listing.
#[derive(Debug, Clone)]
pub struct Transactions {
    pub transactions: Vec<Transaction>,
}

/// One transaction as the provider reports it: `amount` is in the
/// provider's centi-units, `ty` and the optional fields drive the payee
/// inference, and `state` tells settled card payments from failed ones.
#[derive(Debug, Clone)]
pub struct Transaction {
    pub id: String,
    pub date: Date,
    pub account: TransactionAccount,
    pub amount: i64,
    pub description: Option<String>,
    pub merchant: Option<TransactionMerchant>,
    pub beneficiary: Option<TransactionBeneficiary>,
    pub entry_mode: Option<String>,
    pub ty: String,
    pub tag: Option<String>,
    pub direction: Option<String>,
    pub counterpart: Option<TransactionCounterpart>,
    pub state: Option<String>,
}

/// The other side of an exchange, where the provider reports one.
#[derive(Debug, Clone)]
pub struct TransactionCounterpart {
    pub account: Option<TransactionAccount>,
}

/// A transaction's counterparty reference.
#[derive(Debug, Clone)]
pub struct TransactionBeneficiary {
    pub id: String,
}

/// The pocket a transaction belongs to.
#[derive(Debug, Clone)]
pub struct TransactionAccount {
    pub id: String,
}

/// The merchant a card payment went to.
#[derive(Debug, Clone)]
pub struct TransactionMerchant {
    pub name: String,
}

/// The mathematical value of a `Transaction`, nested references flattened.
pub struct TransactionV {
    pub id: Seq<char>,
    pub date: Date,
    pub account_id: Seq<char>,
    pub amount: int,
    pub description: Option<Seq<char>>,
    pub merchant: Option<Seq<char>>,
    pub beneficiary: Option<Seq<char>>,
    pub entry_mode: Option<Seq<char>>,
    pub ty: Seq<char>,
    pub tag: Option<Seq<char>>,
    pub direction: Option<Seq<char>>,
    pub counterpart_account: Option<Seq<char>>,
    pub state: Option<Seq<char>>,
}

impl View for Transaction {
    type V = TransactionV;

    open spec fn view(&self) -> TransactionV {
        TransactionV {
            id: self.id@,
            date: self.date,
            account_id: self.account.id@,
            amount: self.amount as int,
            description: match self.description {
                Option::Some(d) => Option::Some(d@),
                Option::None => Option::None,
            },
            merchant: match self.merchant {
                Option::Some(m) => Option::Some(m.name@),
                Option::None => Option::None,
            },
            beneficiary: match self.beneficiary {
                Option::Some(b) => Option::Some(b.id@),
                Option::None => Option::None,
            },
            entry_mode: match self.entry_mode {
                Option::Some(e) => Option::Some(e@),
                Option::None => Option::None,
            },
            ty: self.ty@,
            tag: match self.tag {
                Option::Some(t) => Option::Some(t@),
                Option::None => Option::None,
            },
            direction: match self.direction {
                Option::Some(d) => Option::Some(d@),
                Option::None => Option::None,
            },
            counterpart_account: match self.counterpart {
                Option::Some(c) => match c.account {
                    Option::Some(a) => Option::Some(a.id@),
                    Option::None => Option::None,
                },
                Option::None => Option::None,
            },
            state: match self.state {
                Option::Some(s) => Option::Some(s@),
                Option::None => Option::None,
            },
        }
    }
}

/// The mathematical value of a `Beneficiary`.
pub struct BeneficiaryV {
    pub id: Seq<char>,
    pub first_name: Seq<char>,
    pub last_name: Seq<char>,
}

impl View for Beneficiary {
    type V = BeneficiaryV;

    open spec fn view(&self) -> BeneficiaryV {
        BeneficiaryV { id: self.id@, first_name: self.first_name@, last_name: self.last_name@ }
    }
}

/// The views of a sequence of beneficiaries.
pub open spec fn beneficiary_views(s: Seq<Beneficiary>) -> Seq<BeneficiaryV> {
    s.map_values(|b: Beneficiary| b@)
}

/// The views of a sequence of transactions.
pub open spec fn transaction_views(s: Seq<Transaction>) -> Seq<TransactionV> {
    s.map_values(|t: Transaction| t@)
}

} // verus!

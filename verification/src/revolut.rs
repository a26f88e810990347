//! The e-money provider's side of the engine: its stored credentials and
//! the shaping of its wallet and transaction listings into the engine's
//! normalized forms — scaling centi-units to milli-units, filtering
//! unsettled card payments and the selling half of exchanges, and inferring
//! a payee from what each record carries. The wire calls live outside the
//! library.

pub mod api;

use crate::text;
use crate::AccountType;
use crate::Transaction;
use vstd::prelude::*;

verus! {

/// The stored credentials of one connection.
#[derive(Debug)]
pub struct Token {
    pub display_name: String,
    pub device_id: String,
    pub username: String,
    pub password: String,
}

/// The engine's account for one pocket: named by its currency, its
/// centi-unit balance scaled to milli-units.
pub open spec fn spec_shaped_account(a: api::Account) -> crate::AccountView {
    crate::AccountView {
        account_id: a.id@,
        currency: a.currency@,
        display_name: a.currency@,
        ty: AccountType::Account,
        balance: 10 * (a.balance as int),
    }
}

/// Shapes the wallet's pockets into engine accounts, in the provider's
/// order.
#[verifier::loop_isolation(false)]
pub fn shape_accounts(accounts: &api::Accounts) -> (r: Vec<crate::Account>)
    requires
        forall|i: int|
            0 <= i < accounts.pockets@.len() ==> -922337203685477580
                <= (#[trigger] accounts.pockets@[i]).balance <= 922337203685477580,
    ensures
        r@.len() == accounts.pockets@.len(),
        forall|i: int|
            0 <= i < r@.len() ==> (#[trigger] r@[i])@ == spec_shaped_account(
                accounts.pockets@[i],
            ),
{
    let mut out: Vec<crate::Account> = Vec::new();
    let mut i: usize = 0;
    while i < accounts.pockets.len()
        invariant
            i <= accounts.pockets.len(),
            out@.len() == i,
            forall|j: int|
                0 <= j < i ==> (#[trigger] out@[j])@ == spec_shaped_account(
                    accounts.pockets@[j],
                ),
        decreases accounts.pockets.len() - i,
    {
        let p: &api::Account = &accounts.pockets[i];
        out.push(
            crate::Account {
                account_id: p.id.clone(),
                currency: p.currency.clone(),
                display_name: p.currency.clone(),
                ty: AccountType::Account,
                balance: p.balance * 10,
            },
        );
        i = i + 1;
    }
    out
}

/// A transaction belongs to the listing of one pocket, and is kept only
/// when it is no selling half of an exchange and no unsettled card payment.
pub open spec fn spec_keep(t: api::TransactionV, account_id: Seq<char>) -> bool {
    &&& t.account_id == account_id
    &&& (t.ty != "EXCHANGE"@ || t.direction == Some("buy"@))
    &&& (t.ty != "CARD_PAYMENT"@ || t.state == Some("COMPLETED"@) || t.state == Some(
        "PENDING"@,
    ))
}

/// The first saved counterparty carrying `id`, at or after position `i`.
pub open spec fn first_beneficiary(bens: Seq<api::BeneficiaryV>, id: Seq<char>, i: int) -> Option<
    int,
>
    recommends
        0 <= i,
    decreases bens.len() - i + 1,
{
    if i < 0 || i >= bens.len() {
        None
    } else if bens[i].id == id {
        Some(i)
    } else {
        first_beneficiary(bens, id, i + 1)
    }
}

/// The payee a record infers, tried in order: the merchant's name; the
/// saved counterparty's full name; a fixed label for wallet top-ups through
/// the phone's pay service; for a top-up, the description with its
/// `Payment from ` prefix removed; a fixed label for fees; for the buying
/// half of an exchange, the counterpart pocket's id, to be resolved to a
/// transfer later; else nothing.
pub open spec fn spec_payee(t: api::TransactionV, bens: Seq<api::BeneficiaryV>) -> Option<
    Seq<char>,
> {
    match t.merchant {
        Some(m) => Some(m),
        None => match t.beneficiary {
            Some(bid) => match first_beneficiary(bens, bid, 0) {
                Some(i) => Some(bens[i].first_name + " "@ + bens[i].last_name),
                None => None,
            },
            None => if t.entry_mode == Some("GOOGLE_PAY"@) {
                Some("Google Pay Topup"@)
            } else if t.ty == "TOPUP"@ {
                match t.description {
                    Some(d) => Some(text::strip_prefix_repeated(d, "Payment from "@)),
                    None => None,
                }
            } else if t.ty == "FEE"@ {
                if t.tag == Some("insurance"@) {
                    Some("Revolut Insurance"@)
                } else {
                    Some("Revolut"@)
                }
            } else if t.ty == "EXCHANGE"@ {
                t.counterpart_account
            } else {
                None
            },
        },
    }
}

/// One kept record in the engine's normalized shape: centi-units scaled to
/// milli-units, a missing description read as empty, the payee inferred.
pub open spec fn spec_shaped_transaction(
    t: api::TransactionV,
    bens: Seq<api::BeneficiaryV>,
) -> crate::TransactionView {
    crate::TransactionView {
        transaction_id: t.id,
        timestamp: t.date,
        amount: 10 * t.amount,
        description: match t.description {
            Some(d) => d,
            None => Seq::empty(),
        },
        payee_name: spec_payee(t, bens),
        category: None,
    }
}

/// The engine transactions one pocket's listing yields, in the provider's
/// order: the kept records, shaped.
pub open spec fn spec_shaped_list(
    trans: Seq<api::TransactionV>,
    bens: Seq<api::BeneficiaryV>,
    account_id: Seq<char>,
) -> Seq<crate::TransactionView>
    decreases trans.len(),
{
    if trans.len() == 0 {
        Seq::empty()
    } else {
        let rest = spec_shaped_list(trans.drop_last(), bens, account_id);
        if spec_keep(trans.last(), account_id) {
            rest.push(spec_shaped_transaction(trans.last(), bens))
        } else {
            rest
        }
    }
}

/// Whether an optional string holds exactly `lit`.
fn opt_is(o: &Option<String>, lit: &str) -> (r: bool)
    ensures
        r == (match *o {
            Some(s) => s@ == lit@,
            None => false,
        }),
{
    match o {
        Some(s) => text::str_eq(s.as_str(), lit),
        None => false,
    }
}

/// Infers the payee of one record.
#[verifier::loop_isolation(false)]
fn infer_payee(t: &api::Transaction, bens: &api::Beneficiaries) -> (r: Option<String>)
    ensures
        (match r {
            Some(p) => spec_payee(t@, api::beneficiary_views(bens.beneficiaries@)) == Some(p@),
            None => spec_payee(t@, api::beneficiary_views(bens.beneficiaries@)) is None,
        }),
{
    let ghost bv = api::beneficiary_views(bens.beneficiaries@);
    if let Some(m) = &t.merchant {
        return Some(m.name.clone());
    }
    if let Some(b) = &t.beneficiary {
        let mut j: usize = 0;
        let mut hit: Option<usize> = None;
        while j < bens.beneficiaries.len() && hit.is_none()
            invariant
                j <= bens.beneficiaries.len(),
                hit is None ==> first_beneficiary(bv, b.id@, 0) == first_beneficiary(
                    bv,
                    b.id@,
                    j as int,
                ),
                hit matches Some(h) ==> h < bens.beneficiaries.len() && first_beneficiary(
                    bv,
                    b.id@,
                    0,
                ) == Some(h as int),
            decreases
                    bens.beneficiaries.len() - j + (if hit is None {
                        1int
                    } else {
                        0int
                    }),
        {
            if text::str_eq(bens.beneficiaries[j].id.as_str(), b.id.as_str()) {
                assert(bv[j as int].id == b.id@);
                hit = Some(j);
            } else {
                assert(bv[j as int].id != b.id@);
                assert(first_beneficiary(bv, b.id@, j as int) == first_beneficiary(
                    bv,
                    b.id@,
                    j + 1,
                ));
                j = j + 1;
            }
        }
        return match hit {
            Some(h) => {
                let ben: &api::Beneficiary = &bens.beneficiaries[h];
                let mut name: String = ben.first_name.clone();
                name.append(" ");
                name.append(ben.last_name.as_str());
                Some(name)
            },
            None => None,
        };
    }
    if opt_is(&t.entry_mode, "GOOGLE_PAY") {
        return Some(String::from_str("Google Pay Topup"));
    }
    if text::str_eq(t.ty.as_str(), "TOPUP") {
        return match &t.description {
            Some(d) => Some(
                String::from_str(text::trim_prefix_repeated(d.as_str(), "Payment from ")),
            ),
            None => None,
        };
    }
    if text::str_eq(t.ty.as_str(), "FEE") {
        if opt_is(&t.tag, "insurance") {
            return Some(String::from_str("Revolut Insurance"));
        }
        return Some(String::from_str("Revolut"));
    }
    if text::str_eq(t.ty.as_str(), "EXCHANGE") {
        return match &t.counterpart {
            Some(c) => match &c.account {
                Some(a) => Some(a.id.clone()),
                None => None,
            },
            None => None,
        };
    }
    None
}

/// Whether one record is kept for the given pocket.
fn keep_transaction(t: &api::Transaction, account_id: &str) -> (r: bool)
    ensures
        r == spec_keep(t@, account_id@),
{
    if !text::str_eq(t.account.id.as_str(), account_id) {
        return false;
    }
    if text::str_eq(t.ty.as_str(), "EXCHANGE") && !opt_is(&t.direction, "buy") {
        return false;
    }
    if text::str_eq(t.ty.as_str(), "CARD_PAYMENT") && !opt_is(&t.state, "COMPLETED") && !opt_is(
        &t.state,
        "PENDING",
    ) {
        return false;
    }
    true
}

/// Shapes one pocket's listing for the engine: keeps the settled records
/// of that pocket, scales their amounts, and infers each payee.
#[verifier::loop_isolation(false)]
pub fn shape_transactions(
    transactions: &Vec<api::Transaction>,
    bens: &api::Beneficiaries,
    account_id: &str,
) -> (r: Vec<Transaction>)
    requires
        forall|i: int|
            0 <= i < transactions@.len() ==> -922337203685477580 <= (#[trigger] transactions@[
                i
            ]).amount <= 922337203685477580,
    ensures
        crate::transaction_views(r@) =~= spec_shaped_list(
            api::transaction_views(transactions@),
            api::beneficiary_views(bens.beneficiaries@),
            account_id@,
        ),
{
    let ghost tv = api::transaction_views(transactions@);
    let ghost bv = api::beneficiary_views(bens.beneficiaries@);
    let mut out: Vec<Transaction> = Vec::new();
    let mut i: usize = 0;
    assert(tv.take(0) =~= Seq::<api::TransactionV>::empty());
    assert(crate::transaction_views(out@) =~= Seq::<crate::TransactionView>::empty());
    while i < transactions.len()
        invariant
            i <= transactions.len(),
            crate::transaction_views(out@) =~= spec_shaped_list(
                tv.take(i as int),
                bv,
                account_id@,
            ),
        decreases transactions.len() - i,
    {
        proof {
            assert(tv.take(i + 1).drop_last() =~= tv.take(i as int));
            assert(tv.take(i + 1).last() == transactions@[i as int]@);
        }
        let t: &api::Transaction = &transactions[i];
        if keep_transaction(t, account_id) {
            let payee_name: Option<String> = infer_payee(t, bens);
            let description: String = match &t.description {
                Some(d) => d.clone(),
                None => String::new(),
            };
            let shaped: Transaction = Transaction {
                transaction_id: t.id.clone(),
                timestamp: t.date,
                amount: t.amount * 10,
                description,
                payee_name,
                category: None,
            };
            assert(shaped@ == spec_shaped_transaction(tv[i as int], bv));
            let ghost prev = crate::transaction_views(out@);
            out.push(shaped);
            proof {
                assert(crate::transaction_views(out@) =~= prev.push(out@.last()@));
            }
        }
        i = i + 1;
    }
    proof {
        assert(tv.take(transactions.len() as int) =~= tv);
    }
    out
}

} // verus!

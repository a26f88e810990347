//! The ledger-facing engine: unwrapping the ledger's replies, converting
//! transaction amounts with the rate table, building the chunked import
//! calls, and deciding whether a balance correction must be posted.

pub mod api;

use crate::currency::CurrencyConverter;
use crate::currency::Rate;
use crate::dates;
use crate::dates::Date;
use crate::text;
use crate::SyncError;
use crate::Transaction;
use vstd::prelude::*;

verus! {

/// The accounts a ledger reply carries; fetching the reply is the caller's.
pub fn get_accounts(resp: api::Wrapper<api::AccountsResponse>) -> (r: Vec<api::Account>)
    ensures
        r == resp.data.accounts,
{
    resp.data.accounts
}

/// The account a ledger reply carries; fetching the reply is the caller's.
pub fn get_account(resp: api::Wrapper<api::AccountResponse>) -> (r: api::Account)
    ensures
        r == resp.data.account,
{
    resp.data.account
}

/// The budget a ledger reply carries; fetching the reply is the caller's.
pub fn get_budget(resp: api::Wrapper<api::BudgetResponse>) -> (r: api::Budget)
    ensures
        r == resp.data.budget,
{
    resp.data.budget
}

/// The payees a ledger reply carries; fetching the reply is the caller's.
pub fn get_payees(resp: api::Wrapper<api::PayeesResponse>) -> (r: Vec<api::Payee>)
    ensures
        r == resp.data.payees,
{
    resp.data.payees
}

/// The headers the ledger client is opened with: the bearer token built
/// from the access token, the accepted content type, and the user agent.
/// Opening the connection itself is the caller's.
pub fn new_rest_client(access_token: &str) -> (r: Vec<(String, String)>)
    ensures
        r@.len() == 3,
        r@[0].0@ == "Authorization"@ && r@[0].1@ == "Bearer "@ + access_token@,
        r@[1].0@ == "accept"@ && r@[1].1@ == "application/json"@,
        r@[2].0@ == "User-Agent"@ && r@[2].1@ == "moonstruck.dev/import-ynab"@,
{
    let mut bearer: String = String::from_str("Bearer ");
    bearer.append(access_token);
    let mut r: Vec<(String, String)> = Vec::new();
    r.push((String::from_str("Authorization"), bearer));
    r.push((String::from_str("accept"), String::from_str("application/json")));
    r.push((String::from_str("User-Agent"), String::from_str("moonstruck.dev/import-ynab")));
    r
}

/// Whether a correction must be posted for a ledger balance against the
/// balance computed from the provider: never when they are equal; always
/// when exactly one is zero; always when they differ by more than 1000
/// milli-units; otherwise exactly when the ratio of the two, taken so that
/// it is at least one, exceeds 101/100.
pub open spec fn spec_should_reconcile(acc: int, calc: int) -> bool {
    if acc == calc {
        false
    } else if acc == 0 || calc == 0 {
        true
    } else if (if acc - calc >= 0 {
        acc - calc
    } else {
        calc - acc
    }) > 1000 {
        true
    } else {
        if (if calc > 0 {
            acc < calc
        } else {
            acc > calc
        }) {
            // acc/calc < 1: compare calc/acc against 101/100
            if acc > 0 {
                100 * calc > 101 * acc
            } else {
                100 * calc < 101 * acc
            }
        } else {
            // acc/calc >= 1: compare acc/calc against 101/100
            if calc > 0 {
                100 * acc > 101 * calc
            } else {
                100 * acc < 101 * calc
            }
        }
    }
}

/// Decides whether a correction must be posted, comparing the ledger's
/// balance with the balance computed from the provider (both milli-units).
pub fn should_reconcile(acc_balance: i64, calc_balance: i64) -> (r: bool)
    ensures
        r == spec_should_reconcile(acc_balance as int, calc_balance as int),
{
    if acc_balance == calc_balance {
        return false;
    }
    if acc_balance == 0 || calc_balance == 0 {
        return true;
    }
    let a: i128 = acc_balance as i128;
    let c: i128 = calc_balance as i128;
    let diff: i128 = a - c;
    let adiff: i128 = if diff < 0 {
        -diff
    } else {
        diff
    };
    if adiff > 1000 {
        return true;
    }
    let ratio_below_one: bool = if c > 0 {
        a < c
    } else {
        a > c
    };
    if ratio_below_one {
        if a > 0 {
            100 * c > 101 * a
        } else {
            100 * c < 101 * a
        }
    } else {
        if c > 0 {
            100 * a > 101 * c
        } else {
            100 * a < 101 * c
        }
    }
}

/// The exact truncating conversion of a milli-unit amount by a rational
/// rate: the magnitude is scaled by `num`, divided by `den` with the
/// remainder dropped, and the sign is kept. A zero divisor cannot convert
/// anything; a result outside the ledger's integer range is refused.
pub open spec fn spec_convert_amount(amount: int, rate: Rate) -> Result<i64, SyncError> {
    if rate.den == 0 {
        Err(SyncError::RateUnusable)
    } else {
        let mag = (if amount >= 0 {
            amount
        } else {
            -amount
        }) * (rate.num as int) / (rate.den as int);
        let v = if amount >= 0 {
            mag
        } else {
            -mag
        };
        if v > i64::MAX || v < i64::MIN {
            Err(SyncError::AmountOverflow)
        } else {
            Ok(v as i64)
        }
    }
}

/// Converts a milli-unit amount with a rational rate, truncating toward
/// zero.
pub fn convert_amount(amount: i64, rate: Rate) -> (r: Result<i64, SyncError>)
    ensures
        r == spec_convert_amount(amount as int, rate),
{
    if rate.den == 0 {
        return Err(SyncError::RateUnusable);
    }
    let mag_in: u128 = if amount < 0 {
        (-(amount as i128)) as u128
    } else {
        amount as u128
    };
    proof {
        assert(mag_in * (rate.num as u128) < 0x80000000000000000000000000000000u128)
            by (nonlinear_arith)
            requires
                mag_in <= 0x8000000000000000u128,
                rate.num <= 0xffffffffffffffffu64,
        ;
    }
    let prod: u128 = mag_in * (rate.num as u128);
    let q: u128 = prod / (rate.den as u128);
    if amount >= 0 {
        if q > i64::MAX as u128 {
            Err(SyncError::AmountOverflow)
        } else {
            Ok(q as i64)
        }
    } else {
        if q > (i64::MAX as u128) + 1 {
            Err(SyncError::AmountOverflow)
        } else if q == (i64::MAX as u128) + 1 {
            Ok(i64::MIN)
        } else {
            Ok(-(q as i64))
        }
    }
}

/// The rounding conversion of a balance by a rational rate, as the
/// reconciliation step computes the expected balance: the magnitude is
/// scaled by `num`/`den` and rounded to the nearest whole milli-unit, a
/// half away from zero, and the sign is kept. A zero divisor cannot
/// convert anything; a result outside the ledger's integer range is
/// refused.
pub open spec fn spec_convert_balance(amount: int, rate: Rate) -> Result<i64, SyncError> {
    if rate.den == 0 {
        Err(SyncError::RateUnusable)
    } else {
        let mag = ((if amount >= 0 {
            amount
        } else {
            -amount
        }) * (rate.num as int) + (rate.den as int) / 2) / (rate.den as int);
        let v = if amount >= 0 {
            mag
        } else {
            -mag
        };
        if v > i64::MAX || v < i64::MIN {
            Err(SyncError::AmountOverflow)
        } else {
            Ok(v as i64)
        }
    }
}

/// Converts a balance with a rational rate, rounding to the nearest
/// milli-unit, a half away from zero.
pub fn convert_balance(amount: i64, rate: Rate) -> (r: Result<i64, SyncError>)
    ensures
        r == spec_convert_balance(amount as int, rate),
{
    if rate.den == 0 {
        return Err(SyncError::RateUnusable);
    }
    let mag_in: u128 = if amount < 0 {
        (-(amount as i128)) as u128
    } else {
        amount as u128
    };
    proof {
        assert(mag_in * (rate.num as u128) <= 0x8000000000000000u128 * 0xffffffffffffffffu128)
            by (nonlinear_arith)
            requires
                mag_in <= 0x8000000000000000u128,
                rate.num <= 0xffffffffffffffffu64,
        ;
    }
    let prod: u128 = mag_in * (rate.num as u128) + ((rate.den / 2) as u128);
    let q: u128 = prod / (rate.den as u128);
    if amount >= 0 {
        if q > i64::MAX as u128 {
            Err(SyncError::AmountOverflow)
        } else {
            Ok(q as i64)
        }
    } else {
        if q > (i64::MAX as u128) + 1 {
            Err(SyncError::AmountOverflow)
        } else if q == (i64::MAX as u128) + 1 {
            Ok(i64::MIN)
        } else {
            Ok(-(q as i64))
        }
    }
}

/// The conversion of a transaction batch, transaction by transaction in
/// order: each amount is scaled by the rate at the transaction's own date;
/// the first transaction without a usable rate fails the whole batch.
pub open spec fn spec_converted(
    cv: CurrencyConverter,
    trans: Seq<crate::TransactionView>,
    from: Seq<char>,
    to: Seq<char>,
) -> Result<Seq<crate::TransactionView>, SyncError>
    decreases trans.len(),
{
    if trans.len() == 0 {
        Ok(Seq::empty())
    } else {
        match spec_converted(cv, trans.drop_last(), from, to) {
            Err(e) => Err(e),
            Ok(s) => {
                let t = trans.last();
                match cv.spec_get_rate(t.timestamp, from, to) {
                    None => Err(SyncError::MissingRate),
                    Some(rate) => match spec_convert_amount(t.amount, rate) {
                        Err(e) => Err(e),
                        Ok(v) => Ok(s.push(crate::TransactionView { amount: v as int, ..t })),
                    },
                }
            },
        }
    }
}

/// A batch that fails on a prefix fails as a whole, with that same error.
proof fn lemma_converted_stops(
    cv: CurrencyConverter,
    trans: Seq<crate::TransactionView>,
    from: Seq<char>,
    to: Seq<char>,
    i: int,
)
    requires
        0 <= i <= trans.len(),
        spec_converted(cv, trans.take(i), from, to) is Err,
    ensures
        spec_converted(cv, trans, from, to) == spec_converted(cv, trans.take(i), from, to),
    decreases trans.len() - i,
{
    if i < trans.len() {
        assert(trans.take(i + 1).drop_last() =~= trans.take(i));
        lemma_converted_stops(cv, trans, from, to, i + 1);
    } else {
        assert(trans.take(i) =~= trans);
    }
}

/// Conversion only changes amounts: count and dates come through.
proof fn lemma_converted_keeps_dates(
    cv: CurrencyConverter,
    trans: Seq<crate::TransactionView>,
    from: Seq<char>,
    to: Seq<char>,
)
    requires
        spec_converted(cv, trans, from, to) is Ok,
    ensures
        spec_converted(cv, trans, from, to)->Ok_0.len() == trans.len(),
        forall|i: int|
            0 <= i < trans.len() ==> (#[trigger] spec_converted(cv, trans, from, to)->Ok_0[
                i
            ]).timestamp == trans[i].timestamp,
    decreases trans.len(),
{
    if trans.len() > 0 {
        lemma_converted_keeps_dates(cv, trans.drop_last(), from, to);
    }
}

/// A field-wise copy of a transaction, with the amount replaced.
fn copy_with_amount(t: &Transaction, amount: i64) -> (r: Transaction)
    ensures
        r@ == (crate::TransactionView { amount: amount as int, ..t@ }),
{
    Transaction {
        transaction_id: t.transaction_id.clone(),
        timestamp: t.timestamp,
        amount,
        description: t.description.clone(),
        payee_name: match &t.payee_name {
            Some(p) => Some(p.clone()),
            None => None,
        },
        category: match &t.category {
            Some(c) => Some(c.clone()),
            None => None,
        },
    }
}

/// Converts a batch into the budget's currency when the account's currency
/// differs (case-insensitively); a batch already in the budget's currency
/// passes through untouched. Conversion is mandatory: the first transaction
/// whose date has no rate within the fallback window fails the batch.
#[verifier::loop_isolation(false)]
pub fn convert_transactions(
    trans: Vec<Transaction>,
    cv: &CurrencyConverter,
    account_currency: &str,
    budget_currency: &str,
) -> (r: Result<Vec<Transaction>, SyncError>)
    requires
        cv.wf(),
        forall|i: int| 0 <= i < trans@.len() ==> (#[trigger] trans@[i]).timestamp.valid(),
    ensures
        text::eq_ignore_case(account_currency@, budget_currency@) ==> (r matches Ok(v) && v
            == trans),
        !text::eq_ignore_case(account_currency@, budget_currency@) ==> match spec_converted(
            *cv,
            crate::transaction_views(trans@),
            account_currency@,
            budget_currency@,
        ) {
            Ok(s) => r is Ok && crate::transaction_views(r->Ok_0@) =~= s,
            Err(e) => r is Err && r->Err_0 == e,
        },
{
    if text::str_eq_ignore_case(account_currency, budget_currency) {
        return Ok(trans);
    }
    let ghost views = crate::transaction_views(trans@);
    let mut out: Vec<Transaction> = Vec::new();
    let mut i: usize = 0;
    assert(views.take(0) =~= Seq::<crate::TransactionView>::empty());
    assert(crate::transaction_views(out@) =~= Seq::<crate::TransactionView>::empty());
    while i < trans.len()
        invariant
            i <= trans.len(),
            spec_converted(*cv, views.take(i as int), account_currency@, budget_currency@)
                == Ok::<_, SyncError>(crate::transaction_views(out@)),
        decreases trans.len() - i,
    {
        proof {
            assert(views.take(i + 1).drop_last() =~= views.take(i as int));
            assert(views.take(i + 1).last() == trans@[i as int]@);
        }
        let t: &Transaction = &trans[i];
        let rate: Rate = match cv.get_rate(t.timestamp, account_currency, budget_currency) {
            None => {
                proof {
                    lemma_converted_stops(
                        *cv,
                        views,
                        account_currency@,
                        budget_currency@,
                        i + 1,
                    );
                }
                return Err(SyncError::MissingRate);
            },
            Some(rate) => rate,
        };
        let amount: i64 = match convert_amount(t.amount, rate) {
            Err(e) => {
                proof {
                    lemma_converted_stops(
                        *cv,
                        views,
                        account_currency@,
                        budget_currency@,
                        i + 1,
                    );
                }
                return Err(e);
            },
            Ok(v) => v,
        };
        let new_tx: Transaction = copy_with_amount(t, amount);
        let ghost prev = crate::transaction_views(out@);
        proof {
            assert(new_tx@ == (crate::TransactionView {
                amount: amount as int,
                ..views.take(i + 1).last()
            }));
            assert(spec_converted(*cv, views.take(i + 1), account_currency@, budget_currency@)
                == Ok::<_, SyncError>(prev.push(new_tx@)));
        }
        out.push(new_tx);
        proof {
            assert(crate::transaction_views(out@) =~= prev.push(out@.last()@));
        }
        i = i + 1;
    }
    proof {
        assert(views.take(trans.len() as int) =~= views);
    }
    Ok(out)
}

/// A transaction whose payee currently names a provider account id is
/// turned into a transfer reference: the payee becomes the bound ledger
/// account's id. Unresolved payee names stay as they are.
pub open spec fn spec_resolve_payee(
    t: crate::TransactionView,
    m: Seq<(Seq<char>, api::AccountV)>,
) -> crate::TransactionView {
    match t.payee_name {
        None => t,
        Some(p) => match crate::matcher::spec_lookup(m, p) {
            None => t,
            Some(acc) => crate::TransactionView { payee_name: Some(acc.id), ..t },
        },
    }
}

/// Resolves inter-account transfers through the account map, transaction
/// by transaction.
#[verifier::loop_isolation(false)]
pub fn resolve_transfer_payees(
    trans: Vec<Transaction>,
    map: &crate::matcher::AccountMap,
) -> (r: Vec<Transaction>)
    ensures
        crate::transaction_views(r@) =~= crate::transaction_views(trans@).map_values(
            |t: crate::TransactionView| spec_resolve_payee(t, map.entries_view()),
        ),
{
    let ghost views = crate::transaction_views(trans@);
    let ghost goal = views.map_values(
        |t: crate::TransactionView| spec_resolve_payee(t, map.entries_view()),
    );
    let mut out: Vec<Transaction> = Vec::new();
    let mut i: usize = 0;
    while i < trans.len()
        invariant
            i <= trans.len(),
            crate::transaction_views(out@) =~= goal.take(i as int),
        decreases trans.len() - i,
    {
        let t: &Transaction = &trans[i];
        let resolved: Transaction = match &t.payee_name {
            None => copy_with_amount(t, t.amount),
            Some(p) => match map.get(p.as_str()) {
                None => copy_with_amount(t, t.amount),
                Some(acc) => Transaction {
                    transaction_id: t.transaction_id.clone(),
                    timestamp: t.timestamp,
                    amount: t.amount,
                    description: t.description.clone(),
                    payee_name: Some(acc.id.clone()),
                    category: match &t.category {
                        Some(c) => Some(c.clone()),
                        None => None,
                    },
                },
            },
        };
        assert(resolved@ == spec_resolve_payee(trans@[i as int]@, map.entries_view()));
        out.push(resolved);
        i = i + 1;
    }
    out
}

/// The first payee standing for a transfer to the account named `name`, at
/// or after position `i`.
pub open spec fn first_transfer_payee(payees: Seq<api::PayeeV>, name: Seq<char>, i: int) -> Option<
    int,
>
    recommends
        0 <= i,
    decreases payees.len() - i + 1,
{
    if i < 0 || i >= payees.len() {
        None
    } else if payees[i].transfer_account_id == Some(name) {
        Some(i)
    } else {
        first_transfer_payee(payees, name, i + 1)
    }
}

/// One transaction as the import call takes it: dated by its calendar day,
/// keyed by its id, and with a payee name that matches a transfer payee's
/// bound account collapsed to that payee's id (the two fields are mutually
/// exclusive).
pub open spec fn spec_new_transaction(
    account_id: Seq<char>,
    payees: Seq<api::PayeeV>,
    t: crate::TransactionView,
) -> api::NewTransactionV {
    let hit = match t.payee_name {
        Some(n) => first_transfer_payee(payees, n, 0),
        None => None,
    };
    api::NewTransactionV {
        account_id: account_id,
        date: dates::spec_format_date(t.timestamp),
        amount: t.amount,
        payee_name: if hit is Some {
            None
        } else {
            t.payee_name
        },
        payee_id: match hit {
            Some(i) => Some(payees[i].id),
            None => None,
        },
        memo: t.description,
        cleared: "cleared"@,
        import_id: Some(t.transaction_id),
        category_name: t.category,
    }
}

/// Builds one import transaction, resolving its payee against the payee
/// list.
#[verifier::loop_isolation(false)]
fn make_new_transaction(account_id: &str, payees: &Vec<api::Payee>, t: &Transaction) -> (r:
    api::NewTransaction)
    requires
        t.timestamp.valid(),
    ensures
        r@ == spec_new_transaction(account_id@, api::payee_views(payees@), t@),
{
    let ghost pv = api::payee_views(payees@);
    let mut payee_name: Option<String> = match &t.payee_name {
        Some(p) => Some(p.clone()),
        None => None,
    };
    let mut payee_id: Option<String> = None;
    if let Some(name) = &t.payee_name {
        let mut j: usize = 0;
        let mut hit: Option<usize> = None;
        while j < payees.len() && hit.is_none()
            invariant
                j <= payees.len(),
                hit is None ==> first_transfer_payee(pv, name@, 0) == first_transfer_payee(
                    pv,
                    name@,
                    j as int,
                ),
                hit matches Some(h) ==> h < payees.len() && first_transfer_payee(pv, name@, 0)
                    == Some(h as int),
            decreases
                    payees.len() - j + (if hit is None {
                        1int
                    } else {
                        0int
                    }),
        {
            let matches_name: bool = match &payees[j].transfer_account_id {
                Some(ta) => text::str_eq(ta.as_str(), name.as_str()),
                None => false,
            };
            if matches_name {
                assert(pv[j as int].transfer_account_id == Some(name@));
                hit = Some(j);
            } else {
                assert(pv[j as int].transfer_account_id != Some(name@));
                assert(first_transfer_payee(pv, name@, j as int) == first_transfer_payee(
                    pv,
                    name@,
                    j + 1,
                ));
                j = j + 1;
            }
        }
        match hit {
            Some(h) => {
                payee_name = None;
                payee_id = Some(payees[h].id.clone());
            },
            None => {},
        }
    }
    api::NewTransaction {
        account_id: String::from_str(account_id),
        date: dates::format_date(&t.timestamp),
        amount: t.amount,
        payee_name,
        payee_id,
        memo: t.description.clone(),
        cleared: String::from_str("cleared"),
        import_id: Some(t.transaction_id.clone()),
        category_name: match &t.category {
            Some(c) => Some(c.clone()),
            None => None,
        },
    }
}

/// The chunks an import batch is sent in: the transactions in their order,
/// fifty per call, the last call taking what remains.
pub open spec fn spec_chunks(s: Seq<api::NewTransactionV>) -> Seq<Seq<api::NewTransactionV>> {
    Seq::new(
        ((s.len() + 49) / 50) as nat,
        |k: int|
            s.subrange(
                50 * k,
                if 50 * k + 50 <= s.len() {
                    50 * k + 50
                } else {
                    s.len() as int
                },
            ),
    )
}

/// Law: chunk boundaries are transparent. The chunks of a batch flatten
/// back to exactly the batch, in order, and every chunk holds at least one
/// and at most fifty transactions.
pub proof fn lemma_chunks_transparent(s: Seq<api::NewTransactionV>)
    ensures
        spec_chunks(s).flatten() =~= s,
        forall|k: int|
            0 <= k < spec_chunks(s).len() ==> 1 <= (#[trigger] spec_chunks(s)[k]).len() <= 50,
    decreases s.len(),
{
    let c = spec_chunks(s);
    if s.len() == 0 {
        assert(c.len() == 0);
        assert(c.flatten() =~= s);
    } else if s.len() <= 50 {
        assert(c.len() == 1) by (nonlinear_arith)
            requires
                c.len() == (s.len() + 49) / 50,
                1 <= s.len() <= 50,
        ;
        assert(c[0] =~= s);
        assert(c.drop_first().len() == 0);
        assert(c.drop_first().flatten() =~= Seq::<api::NewTransactionV>::empty());
        assert(c.flatten() =~= c.first() + c.drop_first().flatten());
        assert(c.flatten() =~= s);
    } else {
        lemma_chunks_transparent(s.skip(50));
        let rest = spec_chunks(s.skip(50));
        assert(c.len() == 1 + rest.len()) by (nonlinear_arith)
            requires
                c.len() == (s.len() + 49) / 50,
                rest.len() == (s.len() - 50 + 49) / 50,
                s.len() > 50,
        ;
        assert(c.first() =~= s.take(50));
        assert forall|k: int| 0 <= k < rest.len() implies c.drop_first()[k] == rest[k] by {
            assert(c[k + 1] =~= rest[k]);
        }
        assert(c.drop_first() =~= rest);
        assert(c.flatten() =~= c.first() + c.drop_first().flatten());
        assert(s.take(50) + s.skip(50) =~= s);
        assert(c.flatten() =~= s);
        assert forall|k: int| 0 <= k < c.len() implies 1 <= (#[trigger] c[k]).len() <= 50 by {
            if k > 0 {
                assert(c[k] =~= rest[k - 1]);
                assert(1 <= rest[k - 1].len() <= 50);
            }
        }
    }
}

/// The import calls one batch becomes: each transaction resolved against
/// the payee list and tagged with the account, cut into chunks of fifty.
pub open spec fn spec_import_plan(
    account_id: Seq<char>,
    payees: Seq<api::PayeeV>,
    trans: Seq<crate::TransactionView>,
) -> Seq<Seq<api::NewTransactionV>> {
    spec_chunks(
        trans.map_values(
            |t: crate::TransactionView| spec_new_transaction(account_id, payees, t),
        ),
    )
}

/// Builds the chunked import calls for one account's batch: chunks of at
/// most fifty in order, every one tagged with the same account id, the
/// payee list applied once to each transaction. An empty batch issues no
/// call.
#[verifier::loop_isolation(false)]
pub fn build_import_chunks(
    account_id: &str,
    payees: &Vec<api::Payee>,
    trans: &Vec<Transaction>,
) -> (r: Vec<api::NewTransactions>)
    requires
        forall|i: int| 0 <= i < trans@.len() ==> (#[trigger] trans@[i]).timestamp.valid(),
    ensures
        r@.map_values(|c: api::NewTransactions| api::new_transaction_views(c.transactions@))
            =~= spec_import_plan(
            account_id@,
            api::payee_views(payees@),
            crate::transaction_views(trans@),
        ),
{
    let ghost mapped = crate::transaction_views(trans@).map_values(
        |t: crate::TransactionView| spec_new_transaction(
            account_id@,
            api::payee_views(payees@),
            t,
        ),
    );
    let n: usize = trans.len();
    let mut r: Vec<api::NewTransactions> = Vec::new();
    let mut start: usize = 0;
    while start < n
        invariant
            start <= n,
            start == 50 * r.len() || (start == n && r.len() == (n + 49) / 50),
            r@.map_values(|c: api::NewTransactions| api::new_transaction_views(c.transactions@))
                =~= spec_chunks(mapped).take(r.len() as int),
            r.len() <= (n + 49) / 50,
        decreases n - start,
    {
        assert(start == 50 * r.len());
        let end: usize = if n - start >= 50 {
            start + 50
        } else {
            n
        };
        proof {
            if end == n && n - start < 50 {
                assert(r.len() + 1 == (n + 49) / 50) by (nonlinear_arith)
                    requires
                        start == 50 * r.len(),
                        start < n,
                        n - start < 50,
                ;
            }
        }
        let chunk: Vec<api::NewTransaction> = build_chunk(account_id, payees, trans, start, end);
        proof {
            assert(r.len() < (n + 49) / 50) by (nonlinear_arith)
                requires
                    start == 50 * r.len(),
                    start < n,
            ;
            assert(api::new_transaction_views(chunk@) =~= mapped.subrange(
                start as int,
                end as int,
            ));
            assert(spec_chunks(mapped)[r.len() as int] == mapped.subrange(
                start as int,
                end as int,
            ));
        }
        let ghost prev = r@.map_values(
            |c: api::NewTransactions| api::new_transaction_views(c.transactions@),
        );
        r.push(api::NewTransactions { transactions: chunk });
        proof {
            assert(r@.map_values(
                |c: api::NewTransactions| api::new_transaction_views(c.transactions@),
            ) =~= prev.push(api::new_transaction_views(r@.last().transactions@)));
            assert(spec_chunks(mapped).take(r.len() as int) =~= prev.push(
                spec_chunks(mapped)[r.len() - 1],
            ));
        }
        start = end;
    }
    proof {
        if start == 50 * r.len() {
            assert(start == n);
            assert(r.len() as int == (n + 49) / 50) by (nonlinear_arith)
                requires
                    n == 50 * r.len(),
            ;
        }
        assert(spec_chunks(mapped).take(r.len() as int) =~= spec_chunks(mapped));
    }
    r
}

/// Builds the import transactions for positions `start..end` of the batch.
#[verifier::loop_isolation(false)]
fn build_chunk(
    account_id: &str,
    payees: &Vec<api::Payee>,
    trans: &Vec<Transaction>,
    start: usize,
    end: usize,
) -> (r: Vec<api::NewTransaction>)
    requires
        start <= end <= trans@.len(),
        forall|i: int| 0 <= i < trans@.len() ==> (#[trigger] trans@[i]).timestamp.valid(),
    ensures
        api::new_transaction_views(r@) =~= crate::transaction_views(trans@).map_values(
            |t: crate::TransactionView| spec_new_transaction(
                account_id@,
                api::payee_views(payees@),
                t,
            ),
        ).subrange(start as int, end as int),
{
    let ghost mapped = crate::transaction_views(trans@).map_values(
        |t: crate::TransactionView| spec_new_transaction(
            account_id@,
            api::payee_views(payees@),
            t,
        ),
    );
    let mut chunk: Vec<api::NewTransaction> = Vec::new();
    let mut j: usize = start;
    assert(api::new_transaction_views(chunk@) =~= mapped.subrange(start as int, start as int));
    while j < end
        invariant
            start <= j <= end,
            api::new_transaction_views(chunk@) =~= mapped.subrange(start as int, j as int),
        decreases end - j,
    {
        let nt: api::NewTransaction = make_new_transaction(account_id, payees, &trans[j]);
        assert(nt@ == mapped[j as int]);
        let ghost prev_chunk = api::new_transaction_views(chunk@);
        chunk.push(nt);
        proof {
            assert(api::new_transaction_views(chunk@) =~= prev_chunk.push(chunk@.last()@));
            assert(prev_chunk.push(chunk@.last()@) =~= mapped.subrange(start as int, j + 1));
        }
        j = j + 1;
    }
    chunk
}

/// What one matched account's batch becomes, end to end: converted into
/// the budget's currency when the account's differs, transfer payees
/// resolved through the account map, and cut into import calls.
pub open spec fn spec_prepare(
    cv: CurrencyConverter,
    trans: Seq<crate::TransactionView>,
    account_currency: Seq<char>,
    budget_currency: Seq<char>,
    map_entries: Seq<(Seq<char>, api::AccountV)>,
    ledger_account_id: Seq<char>,
    payees: Seq<api::PayeeV>,
) -> Result<Seq<Seq<api::NewTransactionV>>, SyncError> {
    let converted = if text::eq_ignore_case(account_currency, budget_currency) {
        Ok(trans)
    } else {
        spec_converted(cv, trans, account_currency, budget_currency)
    };
    match converted {
        Err(e) => Err(e),
        Ok(s) => Ok(
            spec_import_plan(
                ledger_account_id,
                payees,
                s.map_values(
                    |t: crate::TransactionView| spec_resolve_payee(t, map_entries),
                ),
            ),
        ),
    }
}

/// Runs one matched account's batch through the whole pipeline: currency
/// conversion, transfer-payee resolution, and chunking into import calls.
pub fn prepare_import(
    trans: Vec<Transaction>,
    cv: &CurrencyConverter,
    account_currency: &str,
    budget_currency: &str,
    map: &crate::matcher::AccountMap,
    ledger_account_id: &str,
    payees: &Vec<api::Payee>,
) -> (r: Result<Vec<api::NewTransactions>, SyncError>)
    requires
        cv.wf(),
        forall|i: int| 0 <= i < trans@.len() ==> (#[trigger] trans@[i]).timestamp.valid(),
    ensures
        ({
            let plan = spec_prepare(
                *cv,
                crate::transaction_views(trans@),
                account_currency@,
                budget_currency@,
                map.entries_view(),
                ledger_account_id@,
                api::payee_views(payees@),
            );
            match plan {
                Err(e) => r is Err && r->Err_0 == e,
                Ok(chunks) => r is Ok && r->Ok_0@.map_values(
                    |c: api::NewTransactions| api::new_transaction_views(c.transactions@),
                ) =~= chunks,
            }
        }),
{
    let ghost tvs = crate::transaction_views(trans@);
    let converted: Vec<Transaction> = match convert_transactions(
        trans,
        cv,
        account_currency,
        budget_currency,
    ) {
        Err(e) => {
            return Err(e);
        },
        Ok(v) => v,
    };
    let ghost cviews = crate::transaction_views(converted@);
    proof {
        if !text::eq_ignore_case(account_currency@, budget_currency@) {
            lemma_converted_keeps_dates(*cv, tvs, account_currency@, budget_currency@);
        }
        assert forall|i: int| 0 <= i < converted@.len() implies (#[trigger] converted@[
            i
        ]).timestamp.valid() by {
            assert(cviews[i].timestamp == converted@[i].timestamp);
            assert(cviews[i].timestamp == tvs[i].timestamp);
            assert(tvs[i].timestamp == trans@[i].timestamp);
        }
    }
    let resolved: Vec<Transaction> = resolve_transfer_payees(converted, map);
    proof {
        assert forall|i: int| 0 <= i < resolved@.len() implies (#[trigger] resolved@[
            i
        ]).timestamp.valid() by {
            assert(crate::transaction_views(resolved@)[i].timestamp == resolved@[i].timestamp);
            assert(crate::transaction_views(resolved@)[i] == spec_resolve_payee(
                cviews[i],
                map.entries_view(),
            ));
        }
    }
    Ok(build_import_chunks(ledger_account_id, payees, &resolved))
}

/// The human-auditable description of a correction: the provider balance,
/// the rational rate applied, and the computed expected balance.
pub open spec fn spec_correction_description(
    provider_balance: int,
    rate: Rate,
    calc: int,
) -> Seq<char> {
    "Reconciliation. "@ + text::spec_milli_string(provider_balance) + " @ "@ + text::spec_digits(
        rate.num as nat,
    ) + "/"@ + text::spec_digits(rate.den as nat) + " = "@ + text::spec_milli_string(calc)
}

/// The single correction transaction reconciliation posts: dated now, its
/// id time-based with the `correction_` prefix (so two reconciliations in
/// the same second would collide — uniqueness relies on run cadence), its
/// amount the difference that brings the ledger to the expected balance,
/// booked against a fixed synthetic payee and the inflow category.
pub open spec fn spec_correction(
    ledger_balance: int,
    provider_balance: int,
    rate: Rate,
    calc: int,
    now: Date,
    now_unix: int,
) -> crate::TransactionView {
    crate::TransactionView {
        transaction_id: "correction_"@ + text::spec_decimal_i64(now_unix),
        timestamp: now,
        amount: calc - ledger_balance,
        description: spec_correction_description(provider_balance, rate, calc),
        payee_name: Some("Sync Reconciliation"@),
        category: Some("Inflow: To be Budgeted"@),
    }
}

/// Builds the correction transaction.
fn build_correction(
    ledger_balance: i64,
    provider_balance: i64,
    rate: Rate,
    calc: i64,
    now: Date,
    now_unix: i64,
    amount: i64,
) -> (r: Transaction)
    requires
        amount as int == calc - ledger_balance,
    ensures
        r@ == spec_correction(
            ledger_balance as int,
            provider_balance as int,
            rate,
            calc as int,
            now,
            now_unix as int,
        ),
{
    let mut id: String = String::from_str("correction_");
    id.append(text::i64_to_string(now_unix).as_str());
    let mut description: String = String::from_str("Reconciliation. ");
    description.append(text::milli_to_string(provider_balance).as_str());
    description.append(" @ ");
    description.append(text::u64_to_string(rate.num).as_str());
    description.append("/");
    description.append(text::u64_to_string(rate.den).as_str());
    description.append(" = ");
    description.append(text::milli_to_string(calc).as_str());
    Transaction {
        transaction_id: id,
        timestamp: now,
        amount,
        description,
        payee_name: Some(String::from_str("Sync Reconciliation")),
        category: Some(String::from_str("Inflow: To be Budgeted")),
    }
}

/// What the reconciliation step decides for one account, from the ledger's
/// balance after import and the provider's balance converted at today's
/// rate, rounded to the nearest milli-unit: no rate within the window is
/// fatal; an expected balance or a correction amount outside the ledger's
/// integer range is fatal; otherwise a correction is returned exactly when
/// `spec_should_reconcile` says so.
pub open spec fn spec_reconcile(
    cv: CurrencyConverter,
    ledger_balance: int,
    provider_balance: int,
    account_currency: Seq<char>,
    budget_currency: Seq<char>,
    today: Date,
    now: Date,
    now_unix: int,
) -> Result<Option<crate::TransactionView>, SyncError> {
    match cv.spec_get_rate(today, account_currency, budget_currency) {
        None => Err(SyncError::MissingRate),
        Some(rate) => match spec_convert_balance(provider_balance, rate) {
            Err(e) => Err(e),
            Ok(calc) => if spec_should_reconcile(ledger_balance, calc as int) {
                if calc - ledger_balance > i64::MAX || calc - ledger_balance < i64::MIN {
                    Err(SyncError::AmountOverflow)
                } else {
                    Ok(
                        Some(
                            spec_correction(
                                ledger_balance,
                                provider_balance,
                                rate,
                                calc as int,
                                now,
                                now_unix,
                            ),
                        ),
                    )
                }
            } else {
                Ok(None)
            },
        },
    }
}

/// The reconciliation step for one account, run after all imports: converts
/// the provider's balance at today's rate rounded to the nearest
/// milli-unit, decides, and synthesizes the correction transaction dated
/// now when one is owed.
pub fn reconcile_account(
    ledger_balance: i64,
    provider_balance: i64,
    account_currency: &str,
    budget_currency: &str,
    cv: &CurrencyConverter,
    today: Date,
    now: Date,
    now_unix: i64,
) -> (r: Result<Option<Transaction>, SyncError>)
    requires
        cv.wf(),
        today.valid(),
    ensures
        ({
            let expected = spec_reconcile(
                *cv,
                ledger_balance as int,
                provider_balance as int,
                account_currency@,
                budget_currency@,
                today,
                now,
                now_unix as int,
            );
            match expected {
                Err(e) => r is Err && r->Err_0 == e,
                Ok(None) => r is Ok && r->Ok_0 is None,
                Ok(Some(t)) => r is Ok && r->Ok_0 is Some && r->Ok_0->Some_0@ == t,
            }
        }),
{
    let rate: Rate = match cv.get_rate(today, account_currency, budget_currency) {
        None => {
            return Err(SyncError::MissingRate);
        },
        Some(rate) => rate,
    };
    let calc: i64 = match convert_balance(provider_balance, rate) {
        Err(e) => {
            return Err(e);
        },
        Ok(v) => v,
    };
    if should_reconcile(ledger_balance, calc) {
        let wide: i128 = (calc as i128) - (ledger_balance as i128);
        if wide > i64::MAX as i128 || wide < i64::MIN as i128 {
            return Err(SyncError::AmountOverflow);
        }
        let amount: i64 = wide as i64;
        Ok(
            Some(
                build_correction(
                    ledger_balance,
                    provider_balance,
                    rate,
                    calc,
                    now,
                    now_unix,
                    amount,
                ),
            ),
        )
    } else {
        Ok(None)
    }
}

} // verus!

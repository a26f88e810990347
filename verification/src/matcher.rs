//! Matching ledger accounts to provider accounts. A ledger account's
//! free-text note may bind it to a provider account by embedding the
//! literal marker `ACCOUNT_ID="<id>"`; this module extracts those bindings
//! and answers lookups. No uniqueness is enforced: when two accounts embed
//! the same id, the later one in the list wins.

use crate::text;
use crate::ynab::api;
use vstd::prelude::*;

verus! {

/// What one note binds: the characters between the end of the first
/// `ACCOUNT_ID="` marker and the next `"`, if both are there.
pub open spec fn spec_find_account_id(note: Seq<char>) -> Option<Seq<char>> {
    let marker = "ACCOUNT_ID=\""@;
    match text::first_match_from(note, marker, 0) {
        None => None,
        Some(i) => {
            let start = i + marker.len();
            match text::first_match_from(note, "\""@, start) {
                None => None,
                Some(j) => Some(note.subrange(start, j)),
            }
        },
    }
}

/// Extracts the provider account id a note embeds, if any.
pub fn find_account_id(note: &str) -> (r: Option<String>)
    ensures
        match r {
            Some(s) => spec_find_account_id(note@) == Some(s@),
            None => spec_find_account_id(note@) is None,
        },
{
    let marker: &str = "ACCOUNT_ID=\"";
    let mlen: usize = marker.unicode_len();
    let nlen: usize = note.unicode_len();
    match text::find_str(note, marker, 0) {
        None => None,
        Some(i) => {
            assert(i + mlen <= nlen) by {
                assert(text::match_at(note@, marker@, i as int));
            }
            let start: usize = i + mlen;
            match text::find_str(note, "\"", start) {
                None => None,
                Some(j) => {
                    proof {
                        assert(text::match_at(note@, "\""@, j as int));
                    }
                    let piece: &str = note.substring_char(start, j);
                    Some(String::from_str(piece))
                },
            }
        },
    }
}

/// The binding each account's note embeds, in account order; unmarked
/// accounts contribute nothing.
pub open spec fn spec_bindings(accounts: Seq<api::AccountV>) -> Seq<(Seq<char>, api::AccountV)>
    decreases accounts.len(),
{
    if accounts.len() == 0 {
        Seq::empty()
    } else {
        let rest = spec_bindings(accounts.drop_last());
        let a = accounts.last();
        match a.note {
            None => rest,
            Some(n) => match spec_find_account_id(n) {
                None => rest,
                Some(id) => rest.push((id, a)),
            },
        }
    }
}

/// The value bound to `key`, the latest binding winning.
pub open spec fn spec_lookup(
    entries: Seq<(Seq<char>, api::AccountV)>,
    key: Seq<char>,
) -> Option<api::AccountV>
    decreases entries.len(),
{
    if entries.len() == 0 {
        None
    } else if entries.last().0 == key {
        Some(entries.last().1)
    } else {
        spec_lookup(entries.drop_last(), key)
    }
}

/// The provider-account-id to ledger-account map one sync run works with.
pub struct AccountMap {
    entries: Vec<(String, api::Account)>,
}

impl AccountMap {
    /// The bindings held, in insertion order.
    pub closed spec fn entries_view(self) -> Seq<(Seq<char>, api::AccountV)> {
        self.entries@.map_values(|p: (String, api::Account)| (p.0@, p.1@))
    }

    /// What a lookup answers.
    pub open spec fn spec_get(self, key: Seq<char>) -> Option<api::AccountV> {
        spec_lookup(self.entries_view(), key)
    }

    /// Builds the map by scanning every account's note for the marker.
    #[verifier::loop_isolation(false)]
    pub fn build(accounts: &Vec<api::Account>) -> (r: AccountMap)
        ensures
            r.entries_view() =~= spec_bindings(api::account_views(accounts@)),
    {
        let ghost views = api::account_views(accounts@);
        let mut entries: Vec<(String, api::Account)> = Vec::new();
        let mut i: usize = 0;
        assert(views.take(0) =~= Seq::<api::AccountV>::empty());
        while i < accounts.len()
            invariant
                i <= accounts.len(),
                entries@.map_values(|p: (String, api::Account)| (p.0@, p.1@)) =~= spec_bindings(
                    views.take(i as int),
                ),
            decreases accounts.len() - i,
        {
            proof {
                assert(views.take(i + 1).drop_last() =~= views.take(i as int));
                assert(views.take(i + 1).last() == accounts@[i as int]@);
            }
            match &accounts[i].note {
                None => {},
                Some(note) => {
                    match find_account_id(note.as_str()) {
                        None => {},
                        Some(id) => {
                            entries.push((id, clone_account(&accounts[i])));
                            assert(entries@.map_values(
                                |p: (String, api::Account)| (p.0@, p.1@),
                            ) =~= entries@.drop_last().map_values(
                                |p: (String, api::Account)| (p.0@, p.1@),
                            ).push((entries@.last().0@, entries@.last().1@)));
                        },
                    }
                },
            }
            i = i + 1;
        }
        proof {
            assert(views.take(accounts.len() as int) =~= views);
        }
        AccountMap { entries }
    }

    /// Looks a provider account id up, the latest binding winning.
    pub fn get(&self, key: &str) -> (r: Option<&api::Account>)
        ensures
            match r {
                Some(a) => self.spec_get(key@) == Some(a@),
                None => self.spec_get(key@) is None,
            },
    {
        let n: usize = self.entries.len();
        let mut i: usize = n;
        assert(self.entries_view().take(n as int) =~= self.entries_view());
        while i > 0
            invariant
                n == self.entries.len(),
                i <= n,
                spec_lookup(self.entries_view(), key@) == spec_lookup(
                    self.entries_view().take(i as int),
                    key@,
                ),
            decreases i,
        {
            i = i - 1;
            if text::str_eq(self.entries[i].0.as_str(), key) {
                assert(self.entries_view().take(i + 1).last() == self.entries_view()[i as int]);
                return Some(&self.entries[i].1);
            }
            assert(self.entries_view().take(i + 1).drop_last() =~= self.entries_view().take(
                i as int,
            ));
        }
        assert(self.entries_view().take(0) =~= Seq::<(Seq<char>, api::AccountV)>::empty());
        None
    }
}

/// A field-wise copy of a ledger account.
fn clone_account(a: &api::Account) -> (r: api::Account)
    ensures
        r@ == a@,
{
    api::Account {
        id: a.id.clone(),
        name: a.name.clone(),
        note: match &a.note {
            Some(n) => Some(n.clone()),
            None => None,
        },
        balance: a.balance,
    }
}

} // verus!

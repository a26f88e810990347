//! Tests of account matching through the note-embedded marker.

use import_ynab::matcher::{find_account_id, AccountMap};
use import_ynab::ynab::api::Account;

fn account(id: &str, note: Option<&str>) -> Account {
    Account {
        id: id.to_string(),
        name: format!("account {}", id),
        note: note.map(|n| n.to_string()),
        balance: 0,
    }
}

#[test]
fn marker_in_a_note_matches_the_id() {
    assert_eq!(
        find_account_id("foo ACCOUNT_ID=\"abc123\" bar").as_deref(),
        Some("abc123")
    );
}

#[test]
fn a_note_without_the_marker_never_matches() {
    assert_eq!(find_account_id("no binding here"), None);
    assert_eq!(find_account_id(""), None);
    // an unterminated marker binds nothing
    assert_eq!(find_account_id("ACCOUNT_ID=\"unclosed"), None);
}

#[test]
fn marker_at_the_edges_of_the_note() {
    assert_eq!(find_account_id("ACCOUNT_ID=\"x\"").as_deref(), Some("x"));
    assert_eq!(find_account_id("ACCOUNT_ID=\"\"").as_deref(), Some(""));
    // only the first marker counts
    assert_eq!(
        find_account_id("ACCOUNT_ID=\"first\" ACCOUNT_ID=\"second\"").as_deref(),
        Some("first")
    );
}

#[test]
fn map_binds_marked_accounts_only() {
    let accounts = vec![
        account("l1", Some("savings ACCOUNT_ID=\"prov-1\" x")),
        account("l2", None),
        account("l3", Some("no marker")),
    ];
    let map = AccountMap::build(&accounts);
    assert_eq!(map.get("prov-1").unwrap().id, "l1");
    assert!(map.get("prov-2").is_none());
}

#[test]
fn later_binding_wins_on_duplicate_ids() {
    let accounts = vec![
        account("l1", Some("ACCOUNT_ID=\"dup\"")),
        account("l2", Some("ACCOUNT_ID=\"dup\"")),
    ];
    let map = AccountMap::build(&accounts);
    assert_eq!(map.get("dup").unwrap().id, "l2");
}

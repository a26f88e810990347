//! Tests of the configuration shapes, defaults, and paths, and of the
//! ledger client's header assembly.

use import_ynab::config::{config_paths, has_access_token, load_config, YnabConfig};
use import_ynab::ynab::new_rest_client;

#[test]
fn config() {
    let (base, providers, ynab) = config_paths("secrets/");
    assert_eq!(base, "secrets/");
    assert_eq!(providers, "secrets//providers.json");
    assert_eq!(ynab, "secrets//ynab.json");

    let cfg = load_config("secrets/".to_string(), None, None);
    assert_eq!(cfg.path, "secrets/");
    assert_eq!(cfg.providers.len(), 0);
    assert_eq!(cfg.ynab_config.budget_id, "default");
    assert_eq!(cfg.ynab_config.access_token, "");
    assert_eq!(cfg.ynab_config.truelayer_client_id, "");
    assert_eq!(cfg.ynab_config.truelayer_client_secret, "");
}

#[test]
fn loaded_sections_pass_through() {
    let section = YnabConfig {
        budget_id: "b-1".to_string(),
        access_token: "SECRET-REDACTED".to_string(),
        truelayer_client_id: "client".to_string(),
        truelayer_client_secret: "SECRET-REDACTED".to_string(),
    };
    let cfg = load_config("dir".to_string(), Some(Vec::new()), Some(section));
    assert_eq!(cfg.ynab_config.budget_id, "b-1");
    assert!(has_access_token(&cfg.ynab_config));
    let empty: YnabConfig = Default::default();
    assert!(!has_access_token(&empty));
}

#[test]
fn ledger_headers_carry_the_bearer_token() {
    let headers = new_rest_client("tok-123");
    assert_eq!(headers.len(), 3);
    assert_eq!(headers[0].0, "Authorization");
    assert_eq!(headers[0].1, "Bearer tok-123");
    assert_eq!(headers[1].0, "accept");
    assert_eq!(headers[1].1, "application/json");
    assert_eq!(headers[2].0, "User-Agent");
    assert_eq!(headers[2].1, "moonstruck.dev/import-ynab");
}

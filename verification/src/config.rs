//! The configuration one run works with: the connected providers' tokens
//! and the ledger's credentials. Reading and writing the files is the
//! caller's; this module holds the shapes, the default section values, and
//! the paths the sections live under.

use vstd::prelude::*;

verus! {

/// Everything one run needs: where the configuration lives, the providers
/// to connect, and the ledger's credentials.
#[derive(Debug)]
pub struct Config {
    pub path: String,
    pub providers: Vec<Provider>,
    pub ynab_config: YnabConfig,
}

/// The ledger section of the configuration.
#[derive(Debug, Clone)]
pub struct YnabConfig {
    pub budget_id: String,
    pub access_token: String,
    pub truelayer_client_id: String,
    pub truelayer_client_secret: String,
}

impl Default for YnabConfig {
    /// An empty ledger section pointing at the default budget.
    fn default() -> (r: YnabConfig)
        ensures
            r.budget_id@ == "default"@,
            r.access_token@ =~= Seq::<char>::empty(),
            r.truelayer_client_id@ =~= Seq::<char>::empty(),
            r.truelayer_client_secret@ =~= Seq::<char>::empty(),
    {
        YnabConfig {
            budget_id: String::from_str("default"),
            access_token: String::new(),
            truelayer_client_id: String::new(),
            truelayer_client_secret: String::new(),
        }
    }
}

/// One stored provider connection.
#[derive(Debug)]
pub enum Provider {
    Truelayer(crate::truelayer::Token),
    Revolut(crate::revolut::Token),
}

/// The paths of the two configuration sections under a directory: the
/// directory itself, the providers file, and the ledger file.
pub fn config_paths(path: &str) -> (r: (String, String, String))
    ensures
        r.0@ == path@,
        r.1@ == path@ + "/providers.json"@,
        r.2@ == path@ + "/ynab.json"@,
{
    let base: String = String::from_str(path);
    let mut providers: String = String::from_str(path);
    providers.append("/providers.json");
    let mut ynab: String = String::from_str(path);
    ynab.append("/ynab.json");
    (base, providers, ynab)
}

/// Assembles a configuration from the two sections as they were read:
/// a section whose file was missing falls back to its default. Reading the
/// files is the caller's.
pub fn load_config(
    path: String,
    providers: Option<Vec<Provider>>,
    ynab: Option<YnabConfig>,
) -> (r: Config)
    ensures
        r.path@ == path@,
        match providers {
            Some(p) => r.providers == p,
            None => r.providers@.len() == 0,
        },
        match ynab {
            Some(y) => r.ynab_config == y,
            None => r.ynab_config.budget_id@ == "default"@ && r.ynab_config.access_token@
                =~= Seq::<char>::empty() && r.ynab_config.truelayer_client_id@
                =~= Seq::<char>::empty() && r.ynab_config.truelayer_client_secret@
                =~= Seq::<char>::empty(),
        },
{
    let providers: Vec<Provider> = match providers {
        Some(p) => p,
        None => Vec::new(),
    };
    let ynab_config: YnabConfig = match ynab {
        Some(y) => y,
        None => Default::default(),
    };
    Config { path, providers, ynab_config }
}

/// Whether the ledger access token is set, as the checks before a ledger
/// call ask.
pub fn has_access_token(cfg: &YnabConfig) -> (r: bool)
    ensures
        r == (cfg.access_token@.len() != 0),
{
    let n: usize = cfg.access_token.as_str().unicode_len();
    n != 0
}

} // verus!

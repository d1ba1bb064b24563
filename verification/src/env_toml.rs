//! The declarative environment configuration: per-environment network
//! descriptor, account list, and contracts map, with selection of the
//! active environment's settings.

use vstd::prelude::*;
use crate::strutil;

verus! {

/// What can go wrong while reading the environment configuration.
#[derive(Debug, Clone, PartialEq, Eq)]
pub enum Error {
    /// The configuration text could not be parsed.
    ParsingToml(String),
    /// The configuration holds no settings for the active environment.
    NoSettingsForCurrentEnv(String),
    /// The configuration file could not be read as a string.
    ParsingString(String),
}

impl Error {
    /// A one-line description, as the pipeline reports it.
    pub fn message(&self) -> (r: String)
        ensures
            *self matches Error::NoSettingsForCurrentEnv(e) ==> r@ ==
                "⛔ ️no settings for current LOAM_ENV ("@ + e@
                + ") found in environments.toml"@,
    {
        match self {
            Error::ParsingToml(e) => strutil::strcat("⛔ ️parsing environments.toml: ", e.as_str()),
            Error::NoSettingsForCurrentEnv(e) => strutil::strcat3(
                "⛔ ️no settings for current LOAM_ENV (",
                e.as_str(),
                ") found in environments.toml",
            ),
            Error::ParsingString(e) => strutil::strcat(
                "⛔ ️reading environments.toml as a string: ",
                e.as_str(),
            ),
        }
    }
}

/// The network a deployment targets: either a named network reference, or
/// an explicit endpoint and passphrase.
#[derive(Debug, Clone)]
pub struct Network {
    pub name: Option<String>,
    pub rpc_url: Option<String>,
    pub network_passphrase: Option<String>,
}

/// An account as it may be written in configuration: a bare name, or a
/// name with a default flag.
#[derive(Debug, Clone)]
pub enum AccountRepresentation {
    Simple(String),
    Detailed(Account),
}

/// A named account, optionally flagged as the default source account.
#[derive(Debug, Clone)]
pub struct Account {
    pub name: String,
    pub default: bool,
}

impl From<AccountRepresentation> for Account {
    /// A bare name becomes a non-default account; a detailed entry is
    /// taken as written.
    fn from(rep: AccountRepresentation) -> (r: Self) {
        match rep {
            AccountRepresentation::Simple(name) => Account { name, default: false },
            AccountRepresentation::Detailed(account) => account,
        }
    }
}

impl vstd::std_specs::convert::FromSpecImpl<AccountRepresentation> for Account {
    open spec fn obeys_from_spec() -> bool {
        true
    }

    open spec fn from_spec(rep: AccountRepresentation) -> Account {
        match rep {
            AccountRepresentation::Simple(name) => Account { name, default: false },
            AccountRepresentation::Detailed(account) => account,
        }
    }
}

/// Per-contract settings: whether a client is generated, an optional
/// explicit on-network identifier, and an optional initialization script.
#[derive(Debug)]
pub struct Contract {
    pub client: bool,
    pub id: Option<String>,
    pub init: Option<String>,
}

/// The two optional strings hold the same text, or are both absent.
pub open spec fn opt_str_eq(a: Option<String>, b: Option<String>) -> bool {
    &&& a is Some <==> b is Some
    &&& a is Some ==> a->0@ == b->0@
}

/// The two contract settings agree on every field, up to views.
pub open spec fn contract_eq(a: Contract, b: Contract) -> bool {
    &&& a.client == b.client
    &&& opt_str_eq(a.id, b.id)
    &&& opt_str_eq(a.init, b.init)
}

pub fn clone_opt_string(o: &Option<String>) -> (r: Option<String>)
    ensures
        opt_str_eq(r, *o),
{
    match o {
        Some(s) => Some(s.clone()),
        None => None,
    }
}

impl Clone for Contract {
    /// A clone carries every field over unchanged.
    fn clone(&self) -> (r: Self)
        ensures
            contract_eq(r, *self),
    {
        Contract {
            client: self.client,
            id: clone_opt_string(&self.id),
            init: clone_opt_string(&self.init),
        }
    }
}

/// One environment's settings.
#[derive(Debug, Clone)]
pub struct Environment {
    pub accounts: Option<Vec<Account>>,
    pub network: Network,
    /// The contracts map, in configuration order.
    pub contracts: Option<Vec<(String, Contract)>>,
}

impl Environment {
    /// Selects the active environment's settings out of the parsed
    /// configuration. A missing configuration file is a no-op, not an
    /// error; a file without an entry for the active environment is one.
    pub fn get(parsed: Option<Vec<(String, Environment)>>, loam_env: &str) -> (r: Result<
        Option<Environment>,
        Error,
    >)
        ensures
            parsed is None <==> r == Result::<Option<Environment>, Error>::Ok(
                Option::<Environment>::None,
            ),
            match r {
                Ok(Some(e)) => {
                    &&& parsed is Some
                    &&& exists|k: int|
                        0 <= k < parsed->0@.len() && (#[trigger] parsed->0@[k]).0@ == loam_env@
                            && e == parsed->0@[k].1
                },
                Ok(None) => parsed is None,
                Err(e) => {
                    &&& parsed is Some
                    &&& forall|k: int|
                        0 <= k < parsed->0@.len() ==> (#[trigger] parsed->0@[k]).0@ != loam_env@
                    &&& e matches Error::NoSettingsForCurrentEnv(n) && n@ == loam_env@
                },
            },
    {
        let mut envs = match parsed {
            None => {
                return Ok(None);
            },
            Some(envs) => envs,
        };
        let mut k: usize = 0;
        while k < envs.len()
            invariant
                parsed == Option::Some(envs),
                k <= envs@.len(),
                forall|t: int| 0 <= t < k ==> (#[trigger] envs@[t]).0@ != loam_env@,
            decreases envs@.len() - k,
        {
            if strutil::str_eq(envs[k].0.as_str(), loam_env) {
                let ghost orig = envs@;
                let (_, e) = envs.remove(k);
                proof {
                    assert(orig[k as int].0@ == loam_env@ && e == orig[k as int].1);
                    assert((#[trigger] parsed->0@[k as int]).0@ == loam_env@
                        && e == parsed->0@[k as int].1);
                }
                return Ok(Some(e));
            }
            k = k + 1;
        }
        Err(Error::NoSettingsForCurrentEnv(String::from_str(loam_env)))
    }
}

} // verus!

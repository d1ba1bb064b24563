//! Environment policy and the deployment cache's decisions: which
//! environment permits silent redeploys, how a built artifact's hash is
//! held against the deployed one, and what follows from the comparison.

use vstd::prelude::*;
use crate::strutil;
use crate::env_toml::{Account, Contract, Network};

verus! {

/// The closed set of deployment environments.
#[derive(Clone, Copy, Debug, PartialEq, Eq, Structural)]
pub enum LoamEnv {
    Development,
    Testing,
    Staging,
    Production,
}

/// The lowercase name of an environment.
pub open spec fn env_name(e: LoamEnv) -> Seq<char> {
    match e {
        LoamEnv::Development => "development"@,
        LoamEnv::Testing => "testing"@,
        LoamEnv::Staging => "staging"@,
        LoamEnv::Production => "production"@,
    }
}

impl LoamEnv {
    /// The environment's lowercase name.
    pub fn as_str(self) -> (r: &'static str)
        ensures
            r@ == env_name(self),
    {
        match self {
            LoamEnv::Development => "development",
            LoamEnv::Testing => "testing",
            LoamEnv::Staging => "staging",
            LoamEnv::Production => "production",
        }
    }
}

/// Whether a hash mismatch may silently redeploy in this environment.
pub open spec fn permits_redeploy_spec(e: LoamEnv) -> bool {
    e is Development || e is Testing
}

pub fn permits_redeploy(e: LoamEnv) -> (r: bool)
    ensures
        r == permits_redeploy_spec(e),
{
    match e {
        LoamEnv::Development | LoamEnv::Testing => true,
        LoamEnv::Staging | LoamEnv::Production => false,
    }
}

/// Whether contracts must be identified purely by an explicit
/// pre-existing identifier instead of the install/deploy path.
pub open spec fn requires_explicit_ids_spec(e: LoamEnv) -> bool {
    e is Staging || e is Production
}

pub fn requires_explicit_ids(e: LoamEnv) -> (r: bool)
    ensures
        r == requires_explicit_ids_spec(e),
{
    match e {
        LoamEnv::Staging | LoamEnv::Production => true,
        LoamEnv::Development | LoamEnv::Testing => false,
    }
}

/// Whether post-deploy initialization scripts run in this environment.
pub open spec fn runs_init_scripts_spec(e: LoamEnv) -> bool {
    e is Development || e is Testing
}

pub fn runs_init_scripts(e: LoamEnv) -> (r: bool)
    ensures
        r == runs_init_scripts_spec(e),
{
    match e {
        LoamEnv::Development | LoamEnv::Testing => true,
        LoamEnv::Staging | LoamEnv::Production => false,
    }
}

/// The client-building arguments: the selected environment, if any.
#[derive(Clone, Copy, Debug)]
pub struct Args {
    pub env: Option<LoamEnv>,
}

impl Args {
    /// The active environment's name: the selected one, or the default.
    pub fn loam_env(self, default: LoamEnv) -> (r: String)
        ensures
            self.env is Some ==> r@ == env_name(self.env->0),
            self.env is None ==> r@ == env_name(default),
    {
        let e = match self.env {
            Some(e) => e,
            None => default,
        };
        String::from_str(e.as_str())
    }

    /// The active environment itself: the selected one, or the default.
    pub fn effective_env(self, default: LoamEnv) -> (r: LoamEnv)
        ensures
            r == if self.env is Some {
                self.env->0
            } else {
                default
            },
    {
        match self.env {
            Some(e) => e,
            None => default,
        }
    }
}

/// What can go wrong while building clients and deploying contracts.
#[derive(Debug, Clone, PartialEq, Eq)]
pub enum Error {
    EnvironmentsToml(crate::env_toml::Error),
    /// The network is neither a named reference nor a full endpoint pair.
    MalformedNetwork,
    ParsingNetwork(String),
    GeneratingKey(String),
    /// More than one account was flagged default; the payload names them.
    OnlyOneDefaultAccount(Vec<String>),
    /// The account list is missing or empty.
    NeedAtLeastOneAccount,
    /// A configured contract has no built artifact.
    BadContractName(String),
    /// A configured identifier is not a well-formed contract address.
    InvalidContractID(String),
    /// A restrictive environment demands an explicit identifier.
    MissingContractID(String),
    /// An initialization-script line could not be split into words.
    InitParseFailure(String),
    /// A substituted subcommand failed; the payload holds it and its
    /// diagnostic output.
    SubCommandExecutionFailure(String, String),
    ContractInstall(String),
    ContractDeploy(String),
    ContractBindings(String),
    ContractFetch(String),
    ConfigLocator(String),
    ConfigNetwork(String),
    ContractInvoke(String),
    Io(String),
}

impl Error {
    /// A one-line description, as the pipeline reports it.
    pub fn message(&self) -> (r: String)
        ensures
            *self matches Error::BadContractName(n) ==> r@ == "⛔ ️No contract named \""@ + n@
                + "\""@,
            *self matches Error::InvalidContractID(id) ==> r@ == "⛔ ️Invalid contract ID: \""@
                + id@ + "\""@,
            *self matches Error::MissingContractID(n) ==> r@ ==
                "⛔ ️Contract must be identified by its ID in production or staging. E.g. "@ + n@
                + ".id = C..."@,
            *self is MalformedNetwork ==> r@ ==
                "⛔ ️invalid network: must either specify a network name or both network_passphrase and rpc_url"@,
            *self is NeedAtLeastOneAccount ==> r@ ==
                "⛔ ️you need to provide at least one account, to use as the source account for contract deployment and other operations"@,
            *self matches Error::InitParseFailure(l) ==> r@ ==
                "⛔ ️Unable to parse init script: \""@ + l@ + "\""@,
    {
        match self {
            Error::EnvironmentsToml(e) => e.message(),
            Error::MalformedNetwork => String::from_str(
                "⛔ ️invalid network: must either specify a network name or both network_passphrase and rpc_url",
            ),
            Error::ParsingNetwork(e) => strutil::strcat("⛔ ️parsing network: ", e.as_str()),
            Error::GeneratingKey(e) => strutil::strcat("⛔ ️generating key: ", e.as_str()),
            Error::OnlyOneDefaultAccount(names) => {
                let mut quoted: Vec<String> = Vec::new();
                let mut i: usize = 0;
                while i < names.len()
                    decreases names@.len() - i,
                {
                    quoted.push(strutil::strcat3("\"", names[i].as_str(), "\""));
                    i = i + 1;
                }
                let list = strutil::join_with(&quoted, ", ");
                let mut r = String::from_str(
                    "⛔ ️can only have one default account; marked as default: [",
                );
                r.append(list.as_str());
                r.append("]");
                r
            },
            Error::NeedAtLeastOneAccount => String::from_str(
                "⛔ ️you need to provide at least one account, to use as the source account for contract deployment and other operations",
            ),
            Error::BadContractName(n) => strutil::strcat3(
                "⛔ ️No contract named \"",
                n.as_str(),
                "\"",
            ),
            Error::InvalidContractID(id) => strutil::strcat3(
                "⛔ ️Invalid contract ID: \"",
                id.as_str(),
                "\"",
            ),
            Error::MissingContractID(n) => strutil::strcat3(
                "⛔ ️Contract must be identified by its ID in production or staging. E.g. ",
                n.as_str(),
                ".id = C...",
            ),
            Error::InitParseFailure(l) => strutil::strcat3(
                "⛔ ️Unable to parse init script: \"",
                l.as_str(),
                "\"",
            ),
            Error::SubCommandExecutionFailure(cmd, err) => {
                let mut r = String::from_str("⛔ ️Failed to execute subcommand: \"");
                r.append(cmd.as_str());
                r.append("\"\n");
                r.append(err.as_str());
                r
            },
            Error::ContractInstall(e) => strutil::strcat("⛔ ️installing contract: ", e.as_str()),
            Error::ContractDeploy(e) => strutil::strcat("⛔ ️deploying contract: ", e.as_str()),
            Error::ContractBindings(e) => strutil::strcat("⛔ ️binding contract: ", e.as_str()),
            Error::ContractFetch(e) => strutil::strcat("⛔ ️fetching contract: ", e.as_str()),
            Error::ConfigLocator(e) => strutil::strcat("⛔ ️locating config: ", e.as_str()),
            Error::ConfigNetwork(e) => strutil::strcat("⛔ ️network config: ", e.as_str()),
            Error::ContractInvoke(e) => strutil::strcat("⛔ ️invoking contract: ", e.as_str()),
            Error::Io(e) => strutil::strcat("⛔ ️io: ", e.as_str()),
        }
    }
}

/// How the process's network settings are to be set: by looking a named
/// network up with the configuration collaborator, or directly from an
/// explicit endpoint and passphrase. Each carries its status line.
#[derive(Debug, Clone)]
pub enum NetworkDirective {
    Lookup { name: String, log: String },
    Use { rpc_url: String, network_passphrase: String, log: String },
}

/// Decides how the network settings of a run are established: a named
/// network is looked up; an explicit endpoint-and-passphrase pair is used
/// directly; anything else is malformed.
pub fn add_network_to_env(network: &Network) -> (r: Result<NetworkDirective, Error>)
    ensures
        match r {
            Ok(d) => match d {
                NetworkDirective::Lookup { name, log } => {
                    &&& network.name is Some
                    &&& name@ == network.name->0@
                    &&& log@ == "🌐 using "@ + network.name->0@ + " network"@
                },
                NetworkDirective::Use { rpc_url, network_passphrase, log } => {
                    &&& network.name is None
                    &&& network.rpc_url is Some && network.network_passphrase is Some
                    &&& rpc_url@ == network.rpc_url->0@
                    &&& network_passphrase@ == network.network_passphrase->0@
                    &&& log@ == "🌐 using network at "@ + network.rpc_url->0@
                },
            },
            Err(e) => {
                &&& e == Error::MalformedNetwork
                &&& network.name is None
                &&& !(network.rpc_url is Some && network.network_passphrase is Some)
            },
        },
{
    match &network.name {
        Some(name) => Ok(NetworkDirective::Lookup {
            name: name.clone(),
            log: strutil::strcat3("🌐 using ", name.as_str(), " network"),
        }),
        None => {
            match (&network.rpc_url, &network.network_passphrase) {
                (Some(rpc_url), Some(passphrase)) => Ok(NetworkDirective::Use {
                    rpc_url: rpc_url.clone(),
                    network_passphrase: passphrase.clone(),
                    log: strutil::strcat("🌐 using network at ", rpc_url.as_str()),
                }),
                _ => Err(Error::MalformedNetwork),
            }
        },
    }
}

/// The names of the accounts flagged default, in order.
pub open spec fn default_names(accs: Seq<Account>) -> Seq<Seq<char>> {
    accs.filter(|a: Account| a.default).map_values(|a: Account| a.name@)
}

/// Validates the account list and picks the default source account:
/// a missing or empty list is refused; with no flagged account the first
/// is implicitly default; exactly one flagged account is the default;
/// more than one flagged account is refused, naming the candidates.
pub fn default_account(accounts: &Option<Vec<Account>>) -> (r: Result<String, Error>)
    ensures
        match r {
            Ok(name) => {
                &&& accounts is Some && accounts->0@.len() > 0
                &&& ({
                    let dn = default_names(accounts->0@);
                    if dn.len() == 0 {
                        name@ == accounts->0@[0].name@
                    } else {
                        dn.len() == 1 && name@ == dn[0]
                    }
                })
            },
            Err(e) => match e {
                Error::NeedAtLeastOneAccount => accounts is None || accounts->0@.len() == 0,
                Error::OnlyOneDefaultAccount(v) => {
                    &&& accounts is Some
                    &&& default_names(accounts->0@).len() >= 2
                    &&& v.deep_view() == default_names(accounts->0@)
                },
                _ => false,
            },
        },
{
    let accs = match accounts {
        None => {
            return Err(Error::NeedAtLeastOneAccount);
        },
        Some(accs) => accs,
    };
    if accs.len() == 0 {
        return Err(Error::NeedAtLeastOneAccount);
    }
    let mut cands: Vec<String> = Vec::new();
    let mut i: usize = 0;
    proof {
        reveal(Seq::filter);
        assert(accs@.take(0) =~= Seq::<Account>::empty());
    }
    while i < accs.len()
        invariant
            i <= accs@.len(),
            cands.deep_view() =~= default_names(accs@.take(i as int)),
        decreases accs@.len() - i,
    {
        proof {
            reveal(Seq::filter);
            assert(accs@.take(i + 1).drop_last() =~= accs@.take(i as int));
            assert(accs@.take(i + 1).last() == accs@[i as int]);
        }
        if accs[i].default {
            let ghost old_dv = cands.deep_view();
            cands.push(accs[i].name.clone());
            proof {
                let pre = accs@.take(i as int).filter(|a: Account| a.default);
                assert(accs@.take(i + 1).filter(|a: Account| a.default) == pre.push(
                    accs@[i as int],
                ));
                assert(default_names(accs@.take(i + 1)) =~= default_names(
                    accs@.take(i as int),
                ).push(accs@[i as int].name@));
                assert(cands.deep_view() =~= old_dv.push(accs@[i as int].name@));
            }
        } else {
            proof {
                assert(accs@.take(i + 1).filter(|a: Account| a.default) == accs@.take(
                    i as int,
                ).filter(|a: Account| a.default));
            }
        }
        i = i + 1;
    }
    proof {
        assert(accs@.take(accs@.len() as int) =~= accs@);
    }
    if cands.len() == 0 {
        Ok(accs[0].name.clone())
    } else if cands.len() == 1 {
        let name = cands[0].clone();
        proof {
            assert(name@ == default_names(accs@)[0]);
        }
        Ok(name)
    } else {
        Err(Error::OnlyOneDefaultAccount(cands))
    }
}

/// The status line and action for one configured account: an existing
/// account is noted and skipped; a new one has keys created for it.
pub fn account_action(name: &str, exists: bool) -> (r: (String, bool))
    ensures
        exists ==> r.0@ == "ℹ️ account \""@ + name@ + "\" already exists, skipping key creation"@,
        !exists ==> r.0@ == "🔐 creating keys for \""@ + name@ + "\""@,
        r.1 == !exists,
{
    if exists {
        (
            strutil::strcat3("ℹ️ account \"", name, "\" already exists, skipping key creation"),
            false,
        )
    } else {
        (strutil::strcat3("🔐 creating keys for \"", name, "\""), true)
    }
}

/// The deployment cache's classification of one contract.
#[derive(Clone, Copy, Debug, PartialEq, Eq, Structural)]
pub enum DeployState {
    /// No alias exists, or the aliased contract is gone from the network.
    NotDeployed,
    /// The deployed artifact's hash equals the built one's.
    UpToDate,
    /// The deployed artifact's hash differs from the built one's.
    NeedsUpdate,
}

/// What fetching the aliased contract returned.
#[derive(Debug, Clone)]
pub enum FetchOutcome {
    /// The remote artifact's hash, hex-encoded.
    Found(String),
    /// The alias points at nothing on this network.
    NotFound,
}

/// The classification: no alias or a vanished contract is `NotDeployed`;
/// an equal hash is `UpToDate`; a differing hash is `NeedsUpdate`.
pub open spec fn classify_spec(
    alias: Option<String>,
    fetched: Option<FetchOutcome>,
    local: Seq<char>,
) -> DeployState {
    match alias {
        Option::None => DeployState::NotDeployed,
        Option::Some(_) => match fetched {
            Option::None => DeployState::NotDeployed,
            Option::Some(FetchOutcome::NotFound) => DeployState::NotDeployed,
            Option::Some(FetchOutcome::Found(h)) => if h@ == local {
                DeployState::UpToDate
            } else {
                DeployState::NeedsUpdate
            },
        },
    }
}

/// Classifies one contract from its alias lookup, the fetch outcome (for
/// an existing alias), and the built artifact's hash.
pub fn classify(alias: &Option<String>, fetched: &Option<FetchOutcome>, local_hash: &str) -> (r:
    DeployState)
    requires
        alias is Some <==> fetched is Some,
    ensures
        r == classify_spec(*alias, *fetched, local_hash@),
{
    match alias {
        None => DeployState::NotDeployed,
        Some(_) => match fetched {
            None => DeployState::NotDeployed,
            Some(FetchOutcome::NotFound) => DeployState::NotDeployed,
            Some(FetchOutcome::Found(h)) => {
                if strutil::str_eq(h.as_str(), local_hash) {
                    DeployState::UpToDate
                } else {
                    DeployState::NeedsUpdate
                }
            },
        },
    }
}

/// What the policy lets follow from a classification.
#[derive(Clone, Copy, Debug, PartialEq, Eq, Structural)]
pub enum Decision {
    /// Nothing to do: install, deploy and binding generation are skipped.
    Skip,
    /// Install and deploy (or redeploy) the artifact.
    Proceed,
    /// The environment forbids redeploying: abort, writing no state.
    Reject,
}

/// An up-to-date contract is skipped; otherwise the environment's policy
/// decides between proceeding and rejecting.
pub open spec fn decide_spec(state: DeployState, env: LoamEnv) -> Decision {
    if state is UpToDate {
        Decision::Skip
    } else if permits_redeploy_spec(env) {
        Decision::Proceed
    } else {
        Decision::Reject
    }
}

pub fn decide(state: DeployState, env: LoamEnv) -> (r: Decision)
    ensures
        r == decide_spec(state, env),
{
    match state {
        DeployState::UpToDate => Decision::Skip,
        _ => {
            if permits_redeploy(env) {
                Decision::Proceed
            } else {
                Decision::Reject
            }
        },
    }
}

/// Running the pipeline again with an unchanged artifact and an existing
/// alias classifies the contract up to date, and every environment then
/// skips it: no install and no deploy follow. Only a contract without an
/// explicit configured identifier reaches this comparison at all; an
/// explicitly identified one goes straight to the client stage.
pub proof fn lemma_unchanged_artifact_skips(
    alias: String,
    remote: String,
    local: Seq<char>,
    env: LoamEnv,
)
    requires
        remote@ == local,
    ensures
        classify_spec(
            Option::Some(alias),
            Option::Some(FetchOutcome::Found(remote)),
            local,
        ) is UpToDate,
        decide_spec(DeployState::UpToDate, env) is Skip,
{
}

/// In a restrictive environment an artifact-hash mismatch against an
/// existing alias is always rejected, never silently redeployed.
pub proof fn lemma_restrictive_rejects(
    alias: String,
    remote: String,
    local: Seq<char>,
    env: LoamEnv,
)
    requires
        remote@ != local,
        !permits_redeploy_spec(env),
    ensures
        classify_spec(
            Option::Some(alias),
            Option::Some(FetchOutcome::Found(remote)),
            local,
        ) is NeedsUpdate,
        decide_spec(DeployState::NeedsUpdate, env) is Reject,
{
}

/// In a permissive environment the same mismatch always proceeds to a
/// redeploy.
pub proof fn lemma_permissive_redeploys(
    alias: String,
    remote: String,
    local: Seq<char>,
    env: LoamEnv,
)
    requires
        remote@ != local,
        permits_redeploy_spec(env),
    ensures
        classify_spec(
            Option::Some(alias),
            Option::Some(FetchOutcome::Found(remote)),
            local,
        ) is NeedsUpdate,
        decide_spec(DeployState::NeedsUpdate, env) is Proceed,
{
}

/// The digest the deployment collaborators compute over a byte string.
pub uninterp spec fn sha256_of(bytes: Seq<u8>) -> Seq<u8>;

/// Relies on sha2::Sha256::digest: the 32-byte digest of the bytes. The
/// result depends on the bytes alone.
#[verifier::external_body]
fn sha256(bytes: &Vec<u8>) -> (r: Vec<u8>)
    ensures
        r@ == sha256_of(bytes@),
        r@.len() == 32,
{
    <sha2::Sha256 as sha2::Digest>::digest(bytes.as_slice()).to_vec()
}

/// The lowercase hexadecimal digit of a nibble.
pub open spec fn hex_digit(n: int) -> char {
    "0123456789abcdef"@[n]
}

/// The lowercase hexadecimal encoding of a byte string: two digits per
/// byte, high nibble first.
pub open spec fn hex_of(b: Seq<u8>) -> Seq<char>
    decreases b.len(),
{
    if b.len() == 0 {
        Seq::empty()
    } else {
        hex_of(b.drop_last()) + seq![
            hex_digit(b.last() as int / 16),
            hex_digit(b.last() as int % 16),
        ]
    }
}

/// Relies on hex::encode: the lowercase hexadecimal encoding of the
/// bytes, two digits per byte, high nibble first.
#[verifier::external_body]
fn to_hex(bytes: &Vec<u8>) -> (r: String)
    ensures
        r@ == hex_of(bytes@),
{
    hex::encode(bytes.as_slice())
}

/// The hash recorded for an artifact: the hex-encoded digest of its
/// bytes. This is what the deployment cache holds local and deployed
/// artifacts against.
pub fn artifact_hash(bytes: &Vec<u8>) -> (r: String)
    ensures
        r@ == hex_of(sha256_of(bytes@)),
{
    let digest = sha256(bytes);
    to_hex(&digest)
}

/// Interprets the fetch collaborator's raw reply: fetched bytes carry
/// their hash, a not-found answer stands for no deployment, and any other
/// failure is a fatal fetch error.
pub fn fetch_outcome(fetch_result: Result<String, String>) -> (r: Result<FetchOutcome, Error>)
    ensures
        match fetch_result {
            Ok(h) => r matches Ok(o) && o matches FetchOutcome::Found(h2) && h2@ == h@,
            Err(msg) => if strutil::spec_contains(msg@, "Contract not found"@) {
                r matches Ok(o) && o is NotFound
            } else {
                r matches Err(e) && e matches Error::ContractFetch(m) && m@ == msg@
            },
        },
{
    match fetch_result {
        Ok(h) => Ok(FetchOutcome::Found(h)),
        Err(msg) => {
            if strutil::has_substring(msg.as_str(), "Contract not found") {
                Ok(FetchOutcome::NotFound)
            } else {
                Err(Error::ContractFetch(msg))
            }
        },
    }
}

/// Holds the fetched contract's hash against the built artifact's.
/// A not-found fetch counts as no deployment; any other fetch error
/// propagates.
pub fn contract_hash_matches(fetch_result: &Result<String, String>, hash: &str) -> (r: Result<
    bool,
    Error,
>)
    ensures
        match *fetch_result {
            Ok(remote) => r == Result::<bool, Error>::Ok(remote@ == hash@),
            Err(msg) => if strutil::spec_contains(msg@, "Contract not found"@) {
                r == Result::<bool, Error>::Ok(false)
            } else {
                r matches Err(e) && e matches Error::ContractFetch(m) && m@ == msg@
            },
        },
{
    match fetch_result {
        Ok(remote) => Ok(strutil::str_eq(remote.as_str(), hash)),
        Err(msg) => {
            if strutil::has_substring(msg.as_str(), "Contract not found") {
                Ok(false)
            } else {
                Err(Error::ContractFetch(msg.clone()))
            }
        },
    }
}

/// The contract names of the configuration, in order.
pub open spec fn keys_of(cs: Seq<(String, Contract)>) -> Seq<Seq<char>> {
    cs.map_values(|e: (String, Contract)| e.0@)
}

/// The configured names that match a package, in configuration order.
pub open spec fn present_keys(keys: Seq<Seq<char>>, names: Seq<Seq<char>>) -> Seq<Seq<char>> {
    keys.filter(|k: Seq<char>| names.contains(k))
}

/// The package names no configured contract names, in package order.
pub open spec fn absent_names(names: Seq<Seq<char>>, keys: Seq<Seq<char>>) -> Seq<Seq<char>> {
    names.filter(|n: Seq<char>| !keys.contains(n))
}

/// The package processing order: packages named in the contracts map
/// first, in the map's order, then the remaining packages in their own
/// order.
pub open spec fn reorder_spec(names: Seq<Seq<char>>, keys: Seq<Seq<char>>) -> Seq<Seq<char>> {
    present_keys(keys, names) + absent_names(names, keys)
}

fn names_contain(names: &Vec<String>, x: &str) -> (r: bool)
    ensures
        r == names.deep_view().contains(x@),
{
    crate::deps::vec_contains_str(names, x)
}

fn keys_contain(cs: &Vec<(String, Contract)>, x: &str) -> (r: bool)
    ensures
        r == keys_of(cs@).contains(x@),
{
    let mut i: usize = 0;
    while i < cs.len()
        invariant
            i <= cs@.len(),
            forall|t: int| 0 <= t < i ==> keys_of(cs@)[t] != x@,
        decreases cs@.len() - i,
    {
        if strutil::str_eq(cs[i].0.as_str(), x) {
            proof {
                assert(keys_of(cs@)[i as int] == x@);
            }
            return true;
        }
        i = i + 1;
    }
    proof {
        assert forall|t: int| 0 <= t < keys_of(cs@).len() implies keys_of(cs@)[t] != x@ by {}
    }
    false
}

/// Reorders the package names so that configured contracts build first,
/// in configuration order, followed by the unconfigured packages.
#[verifier::rlimit(30)]
pub fn reorder_package_names(
    package_names: &Vec<String>,
    contracts: Option<&Vec<(String, Contract)>>,
) -> (r: Vec<String>)
    ensures
        match contracts {
            Option::None => r.deep_view() == package_names.deep_view(),
            Option::Some(cs) => r.deep_view() == reorder_spec(
                package_names.deep_view(),
                keys_of(cs@),
            ),
        },
{
    let cs = match contracts {
        None => {
            let mut out: Vec<String> = Vec::new();
            let mut i: usize = 0;
            while i < package_names.len()
                invariant
                    i <= package_names@.len(),
                    out.deep_view() =~= package_names.deep_view().take(i as int),
                decreases package_names@.len() - i,
            {
                let ghost old_dv = out.deep_view();
                out.push(package_names[i].clone());
                proof {
                    let dv = package_names.deep_view();
                    assert(dv[i as int] == package_names@[i as int]@);
                    assert(out.deep_view() =~= old_dv.push(dv[i as int]));
                    assert(dv.take(i + 1) =~= dv.take(i as int).push(dv[i as int]));
                }
                i = i + 1;
            }
            proof {
                assert(package_names.deep_view().take(package_names@.len() as int)
                    =~= package_names.deep_view());
            }
            return out;
        },
        Some(cs) => cs,
    };
    let ghost names = package_names.deep_view();
    let ghost keys = keys_of(cs@);
    let mut out: Vec<String> = Vec::new();
    let mut k: usize = 0;
    proof {
        reveal(Seq::filter);
        assert(keys.take(0) =~= Seq::<Seq<char>>::empty());
    }
    while k < cs.len()
        invariant
            names == package_names.deep_view(),
            keys == keys_of(cs@),
            keys.len() == cs@.len(),
            k <= cs@.len(),
            out.deep_view() =~= present_keys(keys.take(k as int), names),
        decreases cs@.len() - k,
    {
        proof {
            reveal(Seq::filter);
            assert(keys.take(k + 1).drop_last() =~= keys.take(k as int));
            assert(keys.take(k + 1).last() == keys[k as int]);
        }
        if names_contain(package_names, cs[k].0.as_str()) {
            let ghost old_dv = out.deep_view();
            out.push(cs[k].0.clone());
            proof {
                assert(keys[k as int] == cs@[k as int].0@);
                assert(present_keys(keys.take(k + 1), names) == present_keys(
                    keys.take(k as int),
                    names,
                ).push(keys[k as int]));
                assert(out.deep_view() =~= old_dv.push(keys[k as int]));
                assert(out.deep_view() =~= present_keys(keys.take(k + 1), names));
            }
        } else {
            proof {
                assert(keys[k as int] == cs@[k as int].0@);
                assert(present_keys(keys.take(k + 1), names) == present_keys(
                    keys.take(k as int),
                    names,
                ));
            }
        }
        k = k + 1;
    }
    proof {
        assert(keys.take(keys.len() as int) =~= keys);
        assert(names.take(0) =~= Seq::<Seq<char>>::empty());
    }
    let mut j: usize = 0;
    while j < package_names.len()
        invariant
            names == package_names.deep_view(),
            keys == keys_of(cs@),
            names.len() == package_names@.len(),
            j <= names.len(),
            out.deep_view() =~= present_keys(keys, names) + absent_names(
                names.take(j as int),
                keys,
            ),
        decreases package_names@.len() - j,
    {
        proof {
            reveal(Seq::filter);
            assert(names.take(j + 1).drop_last() =~= names.take(j as int));
            assert(names.take(j + 1).last() == names[j as int]);
        }
        if !keys_contain(cs, package_names[j].as_str()) {
            let ghost old_dv = out.deep_view();
            out.push(package_names[j].clone());
            proof {
                assert(names[j as int] == package_names@[j as int]@);
                assert(absent_names(names.take(j + 1), keys) == absent_names(
                    names.take(j as int),
                    keys,
                ).push(names[j as int]));
                assert(out.deep_view() =~= old_dv.push(names[j as int]));
                assert(out.deep_view() =~= present_keys(keys, names) + absent_names(
                    names.take(j + 1),
                    keys,
                ));
            }
        } else {
            proof {
                assert(absent_names(names.take(j + 1), keys) == absent_names(
                    names.take(j as int),
                    keys,
                ));
            }
        }
        j = j + 1;
    }
    proof {
        assert(names.take(names.len() as int) =~= names);
    }
    out
}

/// Checks that every client-enabled contract of the configuration has a
/// built artifact among `built`; the first one without is refused by
/// name.
pub fn check_artifacts(contracts: &Vec<(String, Contract)>, built: &Vec<String>) -> (r: Result<
    (),
    Error,
>)
    ensures
        r is Ok <==> forall|k: int|
            0 <= k < contracts@.len() && (#[trigger] contracts@[k]).1.client
                ==> built.deep_view().contains(contracts@[k].0@),
        r matches Err(e) ==> (e matches Error::BadContractName(n) && exists|k: int|
            0 <= k < contracts@.len() && (#[trigger] contracts@[k]).1.client
                && !built.deep_view().contains(contracts@[k].0@) && n@ == contracts@[k].0@),
{
    let mut k: usize = 0;
    while k < contracts.len()
        invariant
            k <= contracts@.len(),
            forall|t: int|
                0 <= t < k && (#[trigger] contracts@[t]).1.client ==> built.deep_view().contains(
                    contracts@[t].0@,
                ),
        decreases contracts@.len() - k,
    {
        if contracts[k].1.client {
            if !names_contain(built, contracts[k].0.as_str()) {
                return Err(Error::BadContractName(contracts[k].0.clone()));
            }
        }
        k = k + 1;
    }
    Ok(())
}

/// The canonical artifact path for a package name, relative to the
/// workspace root.
pub fn wasm_file_name(name: &str) -> (r: String)
    ensures
        r@ == "target/loam/"@ + name@ + ".wasm"@,
{
    strutil::strcat3("target/loam/", name, ".wasm")
}

/// A contract address string of the target network, as the deployment
/// collaborator accepts it.
pub uninterp spec fn is_contract_strkey(s: Seq<char>) -> bool;

/// Relies on stellar_strkey::Contract::from_string: whether `s` is a
/// well-formed contract address string. The result depends on the
/// characters alone.
#[verifier::external_body]
fn contract_id_is_valid(s: &str) -> (r: bool)
    ensures
        r == is_contract_strkey(s@),
{
    stellar_strkey::Contract::from_string(s).is_ok()
}

/// The client-enabled contracts, in configuration order.
pub open spec fn enabled_contracts(cs: Seq<(String, Contract)>) -> Seq<(String, Contract)> {
    cs.filter(|e: (String, Contract)| e.1.client)
}

/// In a restrictive environment no contract is built or deployed: each
/// client-enabled contract must carry an explicit, well-formed
/// identifier — one without any is rejected outright — and only client
/// bindings are generated for the returned (name, identifier) pairs.
#[verifier::rlimit(30)]
pub fn handle_production_contracts(contracts: &Vec<(String, Contract)>) -> (r: Result<
    Vec<(String, String)>,
    Error,
>)
    ensures
        ({
            let en = enabled_contracts(contracts@);
            match r {
                Ok(v) => {
                    &&& v@.len() == en.len()
                    &&& forall|t: int|
                        0 <= t < en.len() ==> (#[trigger] en[t]).1.id is Some && is_contract_strkey(
                            en[t].1.id->0@,
                        )
                    &&& forall|t: int|
                        0 <= t < en.len() ==> (#[trigger] v@[t]).0@ == en[t].0@ && v@[t].1@
                            == en[t].1.id->0@
                },
                Err(e) => match e {
                    Error::InvalidContractID(id) => exists|k: int|
                        0 <= k < contracts@.len() && (#[trigger] contracts@[k]).1.client
                            && contracts@[k].1.id is Some && id@ == contracts@[k].1.id->0@
                            && !is_contract_strkey(id@),
                    Error::MissingContractID(n) => exists|k: int|
                        0 <= k < contracts@.len() && (#[trigger] contracts@[k]).1.client
                            && contracts@[k].1.id is None && n@ == contracts@[k].0@,
                    _ => false,
                },
            }
        }),
        r is Ok <==> forall|k: int|
            0 <= k < contracts@.len() && (#[trigger] contracts@[k]).1.client ==> contracts@[k].1.id
                is Some && is_contract_strkey(contracts@[k].1.id->0@),
{
    let mut v: Vec<(String, String)> = Vec::new();
    let mut k: usize = 0;
    proof {
        reveal(Seq::filter);
        assert(contracts@.take(0) =~= Seq::<(String, Contract)>::empty());
    }
    while k < contracts.len()
        invariant
            k <= contracts@.len(),
            forall|t: int|
                0 <= t < k && (#[trigger] contracts@[t]).1.client ==> contracts@[t].1.id is Some
                    && is_contract_strkey(contracts@[t].1.id->0@),
            ({
                let en = enabled_contracts(contracts@.take(k as int));
                &&& v@.len() == en.len()
                &&& forall|t: int|
                    0 <= t < en.len() ==> (#[trigger] en[t]).1.id is Some && is_contract_strkey(
                        en[t].1.id->0@,
                    )
                &&& forall|t: int|
                    0 <= t < en.len() ==> (#[trigger] v@[t]).0@ == en[t].0@ && v@[t].1@
                        == en[t].1.id->0@
            }),
        decreases contracts@.len() - k,
    {
        proof {
            reveal(Seq::filter);
            assert(contracts@.take(k + 1).drop_last() =~= contracts@.take(k as int));
            assert(contracts@.take(k + 1).last() == contracts@[k as int]);
        }
        let ghost pre = enabled_contracts(contracts@.take(k as int));
        if contracts[k].1.client {
            proof {
                assert(enabled_contracts(contracts@.take(k + 1)) == pre.push(
                    contracts@[k as int],
                ));
            }
            let id = match &contracts[k].1.id {
                Some(id) => {
                    if !contract_id_is_valid(id.as_str()) {
                        return Err(Error::InvalidContractID(id.clone()));
                    }
                    id.clone()
                },
                None => {
                    return Err(Error::MissingContractID(contracts[k].0.clone()));
                },
            };
            v.push((contracts[k].0.clone(), id));
            proof {
                let en = enabled_contracts(contracts@.take(k + 1));
                assert(en[en.len() - 1] == contracts@[k as int]);
                assert((#[trigger] v@[v@.len() - 1]).0@ == contracts@[k as int].0@);
            }
        } else {
            proof {
                assert(enabled_contracts(contracts@.take(k + 1)) == pre);
            }
        }
        k = k + 1;
    }
    proof {
        assert(contracts@.take(contracts@.len() as int) =~= contracts@);
    }
    Ok(v)
}

/// The template spec for one contract's import/config file.
pub open spec fn template_spec(
    name: Seq<char>,
    contract_id: Seq<char>,
    passphrase: Seq<char>,
    allow_http: bool,
) -> Seq<char> {
    "import * as Client from '"@ + name + "';\nimport { rpcUrl } from './util';\n    \nexport default new Client.Client({\n  networkPassphrase: '"@
        + passphrase + "',\n  contractId: '"@ + contract_id + "',\n  rpcUrl,"@ + (if allow_http {
        "\n  allowHttp: true,"@
    } else {
        ""@
    }) + "\n});\n"@
}

impl Args {
    /// The import/config file contents for a deployed contract; only the
    /// development environment allows plain-HTTP endpoints.
    pub fn write_contract_template(
        self,
        name: &str,
        contract_id: &str,
        network_passphrase: &str,
    ) -> (r: String)
        ensures
            r@ == template_spec(
                name@,
                contract_id@,
                network_passphrase@,
                self.env == Option::Some(LoamEnv::Development),
            ),
    {
        let allow_http = match self.env {
            Some(LoamEnv::Development) => "\n  allowHttp: true,",
            _ => "",
        };
        let mut r = String::from_str("import * as Client from '");
        r.append(name);
        r.append("';\nimport { rpcUrl } from './util';\n    \nexport default new Client.Client({\n  networkPassphrase: '");
        r.append(network_passphrase);
        r.append("',\n  contractId: '");
        r.append(contract_id);
        r.append("',\n  rpcUrl,");
        r.append(allow_http);
        r.append("\n});\n");
        r
    }

    /// Looks a contract's alias up in the store.
    pub fn get_contract_alias(
        store: &crate::alias::AliasStore,
        name: &str,
        network_passphrase: &str,
    ) -> (r: Option<String>)
        ensures
            match r {
                Some(id) => store.has(name@, network_passphrase@, id@),
                None => forall|id: Seq<char>| !store.has(name@, network_passphrase@, id),
            },
    {
        store.get(name, network_passphrase)
    }

    /// Persists a contract's alias under the network's passphrase.
    pub fn save_contract_alias(
        store: &mut crate::alias::AliasStore,
        name: &str,
        contract_id: &str,
        network: &Network,
    )
        requires
            old(store).wf(),
            network.network_passphrase is Some,
        ensures
            final(store).wf(),
            final(store).has(name@, network.network_passphrase->0@, contract_id@),
            forall|n: Seq<char>, p: Seq<char>, id: Seq<char>|
                !(n == name@ && p == network.network_passphrase->0@) ==> (final(store).has(
                    n,
                    p,
                    id,
                ) <==> old(store).has(n, p, id)),
            final(store).size() >= old(store).size(),
    {
        let passphrase = match &network.network_passphrase {
            Some(p) => p,
            None => {
                proof {
                    assert(false);
                }
                return ;
            },
        };
        store.save(name, passphrase.as_str(), contract_id);
    }
}

/// Looks the contract's configured settings up by name: the first entry
/// whose key is the name, if any.
pub fn settings_for(contracts: Option<&Vec<(String, Contract)>>, name: &str) -> (r: Option<
    Contract,
>)
    ensures
        match r {
            Some(c) => {
                &&& contracts is Some
                &&& exists|k: int|
                    0 <= k < contracts->0@.len() && (#[trigger] contracts->0@[k]).0@ == name@
                        && crate::env_toml::contract_eq(c, contracts->0@[k].1)
            },
            None => contracts is None || forall|k: int|
                0 <= k < contracts->0@.len() ==> (#[trigger] contracts->0@[k]).0@ != name@,
        },
{
    let cs = match contracts {
        None => {
            return None;
        },
        Some(cs) => cs,
    };
    let mut k: usize = 0;
    while k < cs.len()
        invariant
            contracts == Option::Some(cs),
            k <= cs@.len(),
            forall|t: int| 0 <= t < k ==> (#[trigger] cs@[t]).0@ != name@,
        decreases cs@.len() - k,
    {
        if strutil::str_eq(cs[k].0.as_str(), name) {
            let c = cs[k].1.clone();
            proof {
                assert((#[trigger] contracts->0@[k as int]).0@ == name@);
                assert(crate::env_toml::contract_eq(c, contracts->0@[k as int].1));
            }
            return Some(c);
        }
        k = k + 1;
    }
    None
}

} // verus!

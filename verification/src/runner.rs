//! The per-contract deployment workflow: a state machine from the built
//! artifact and the alias store through fetch, policy decision, install,
//! deploy, initialization and client-binding generation. Each step takes
//! the outside collaborator's reply and says which call comes next; the
//! caller performs the calls.

use vstd::prelude::*;
use crate::alias::AliasStore;
use crate::clients::{
    classify, classify_spec, decide, decide_spec, permits_redeploy_spec, runs_init_scripts,
    runs_init_scripts_spec, wasm_file_name, DeployState, Decision, Error, FetchOutcome, LoamEnv,
};
use crate::env_toml::Contract;
use crate::strutil;

verus! {

/// Where one contract stands in its workflow.
#[derive(Debug)]
pub enum Phase {
    /// Awaiting the fetch of the aliased on-network artifact.
    AwaitFetch { id: String },
    /// Awaiting the result of installing the bytecode.
    AwaitInstall,
    /// Awaiting the identifier of the fresh deployment.
    AwaitDeploy { hash: String },
    /// Awaiting completion of the initialization script.
    AwaitInit { id: String },
    /// Awaiting completion of client-binding generation.
    AwaitBindings { id: String },
    /// Awaiting the import/config file write.
    AwaitImport { id: String },
    /// Nothing left to do; holds the identifier bindings were built for.
    Done { id: Option<String> },
    /// Aborted by policy; no further state is written.
    Failed,
}

/// The next outside call the workflow asks for.
#[derive(Debug)]
pub enum Action {
    /// Fetch the deployed artifact behind this identifier.
    Fetch { id: String },
    /// Install the bytecode found at this artifact path.
    Install { wasm: String },
    /// Instantiate a deployment from this installed-code hash.
    Deploy { hash: String },
    /// Run the configured initialization script against this identifier.
    RunInit { id: String },
    /// Generate the client bindings for this identifier.
    Bind { id: String },
    /// Write the import/config file for this identifier.
    WriteImport { id: String },
    /// The contract is finished; nothing more to call.
    Finished { id: Option<String> },
    /// The run must abort with this error.
    Fail { error: Error },
}

/// Status lines the workflow emits, exactly as the pipeline prints them.
pub open spec fn line_up_to_date(name: Seq<char>) -> Seq<char> {
    "✅ Contract \""@ + name + "\" is up to date"@
}

pub open spec fn line_updating(name: Seq<char>) -> Seq<char> {
    "🔄 Updating contract \""@ + name + "\""@
}

pub open spec fn line_installing(name: Seq<char>) -> Seq<char> {
    "📲 installing \""@ + name + "\" wasm bytecode on-chain..."@
}

pub open spec fn line_hash(hash: Seq<char>) -> Seq<char> {
    "    ↳ hash: "@ + hash
}

pub open spec fn line_instantiating(name: Seq<char>) -> Seq<char> {
    "🪞 instantiating \""@ + name + "\" smart contract"@
}

pub open spec fn line_contract_id(id: Seq<char>) -> Seq<char> {
    "    ↳ contract_id: "@ + id
}

pub open spec fn line_running_init(name: Seq<char>) -> Seq<char> {
    "🚀 Running initialization script for \""@ + name + "\""@
}

pub open spec fn line_init_done(name: Seq<char>) -> Seq<char> {
    "✅ Initialization script for \""@ + name + "\" completed successfully"@
}

pub open spec fn line_binding(name: Seq<char>) -> Seq<char> {
    "🎭 binding \""@ + name + "\" contract"@
}

pub open spec fn line_importing(name: Seq<char>) -> Seq<char> {
    "🍽️ importing \""@ + name + "\" contract"@
}

/// `new` is `old` with one more status line, reading `l`.
pub open spec fn log_extended(new: Seq<String>, base: Seq<String>, l: Seq<char>) -> bool {
    &&& new.len() == base.len() + 1
    &&& new.take(base.len() as int) == base
    &&& new.last()@ == l
}

/// `new` is `old` with two more status lines, reading `l1` then `l2`.
pub open spec fn log_extended2(
    new: Seq<String>,
    base: Seq<String>,
    l1: Seq<char>,
    l2: Seq<char>,
) -> bool {
    &&& new.len() == base.len() + 2
    &&& new.take(base.len() as int) == base
    &&& new[new.len() - 2]@ == l1
    &&& new.last()@ == l2
}

/// The status line announcing one invoke call of an init script.
pub fn invoke_log(args: &Vec<String>) -> (r: String)
    ensures
        r@ == "  ↳ Executing: stellar contract invoke "@ + strutil::spec_join(
            args.deep_view(),
            " "@,
        ),
{
    let joined = strutil::join_with(args, " ");
    strutil::strcat("  ↳ Executing: stellar contract invoke ", joined.as_str())
}

/// One contract's workflow state.
#[derive(Debug)]
pub struct ContractFlow {
    pub name: String,
    pub env: LoamEnv,
    /// Whether configuration gave the contract an initialization script.
    pub has_init: bool,
    /// The built artifact's hash.
    pub local_hash: String,
    pub phase: Phase,
    /// The status lines emitted so far, in order.
    pub log: Vec<String>,
}

/// Whether the client stage opens with the initialization script.
pub open spec fn client_stage_is_init(env: LoamEnv, has_init: bool) -> bool {
    has_init && runs_init_scripts_spec(env)
}

/// The flow stands at the beginning of the client stage for `id`: at the
/// initialization script when one is configured and the environment runs
/// scripts, else at binding generation, with the matching status line
/// appended to `base_log`.
pub open spec fn started_client_stage(
    flow: ContractFlow,
    action: Action,
    id: Seq<char>,
    base_log: Seq<String>,
) -> bool {
    if client_stage_is_init(flow.env, flow.has_init) {
        &&& flow.phase matches Phase::AwaitInit { id: i } && i@ == id
        &&& action matches Action::RunInit { id: i } && i@ == id
        &&& log_extended(flow.log@, base_log, line_running_init(flow.name@))
    } else {
        &&& flow.phase matches Phase::AwaitBindings { id: i } && i@ == id
        &&& action matches Action::Bind { id: i } && i@ == id
        &&& log_extended(flow.log@, base_log, line_binding(flow.name@))
    }
}

/// The flow stands at the beginning of the install/deploy pipeline: at a
/// fetch when the store holds an alias for (name, passphrase), else at a
/// first install.
pub open spec fn started_pipeline(
    flow: ContractFlow,
    action: Action,
    name: Seq<char>,
    passphrase: Seq<char>,
    store: AliasStore,
) -> bool {
    if exists|id: Seq<char>| store.has(name, passphrase, id) {
        &&& flow.phase matches Phase::AwaitFetch { id } && store.has(name, passphrase, id@)
        &&& action matches Action::Fetch { id } && store.has(name, passphrase, id@)
        &&& flow.log@.len() == 0
    } else {
        &&& flow.phase is AwaitInstall
        &&& action matches Action::Install { wasm } && wasm@ == "target/loam/"@ + name + ".wasm"@
        &&& flow.log@.len() == 1 && flow.log@.last()@ == line_installing(name)
    }
}

impl ContractFlow {
    /// Starts one contract's workflow in a permissive environment:
    /// a client-disabled contract is skipped entirely; an explicitly
    /// identified one goes straight to the client stage; otherwise the
    /// alias store decides between fetching and a first install.
    pub fn start(
        name: &str,
        env: LoamEnv,
        settings: Option<&Contract>,
        local_hash: &str,
        passphrase: &str,
        store: &AliasStore,
    ) -> (r: (ContractFlow, Action))
        requires
            permits_redeploy_spec(env),
        ensures
            r.0.name@ == name@,
            r.0.env == env,
            r.0.local_hash@ == local_hash@,
            r.0.has_init == (settings matches Some(c) && c.init is Some),
            match settings {
                Some(c) => {
                    &&& !c.client ==> ({
                        &&& r.0.phase matches Phase::Done { id: None }
                        &&& r.1 matches Action::Finished { id: None }
                        &&& r.0.log@.len() == 0
                    })
                    &&& (c.client && c.id is Some) ==> started_client_stage(
                        r.0,
                        r.1,
                        c.id->0@,
                        Seq::empty(),
                    )
                    &&& (c.client && c.id is None) ==> started_pipeline(
                        r.0,
                        r.1,
                        name@,
                        passphrase@,
                        *store,
                    )
                },
                None => started_pipeline(r.0, r.1, name@, passphrase@, *store),
            },
    {
        let has_init = match settings {
            Some(c) => c.init.is_some(),
            None => false,
        };
        let mut flow = ContractFlow {
            name: String::from_str(name),
            env,
            has_init,
            local_hash: String::from_str(local_hash),
            phase: Phase::Done { id: None },
            log: Vec::new(),
        };
        match settings {
            Some(c) if !c.client => {
                let action = Action::Finished { id: None };
                return (flow, action);
            },
            Some(c) => {
                match &c.id {
                    Some(cid) => {
                        let action = flow.enter_client_stage(cid.as_str());
                        return (flow, action);
                    },
                    None => {},
                }
            },
            None => {},
        }
        match store.get(name, passphrase) {
            Some(id) => {
                flow.phase = Phase::AwaitFetch { id: id.clone() };
                let action = Action::Fetch { id };
                (flow, action)
            },
            None => {
                flow.log.push(strutil::strcat3(
                    "📲 installing \"",
                    name,
                    "\" wasm bytecode on-chain...",
                ));
                flow.phase = Phase::AwaitInstall;
                let action = Action::Install { wasm: wasm_file_name(name) };
                (flow, action)
            },
        }
    }

    /// Enters the client stage for the given identifier, emitting the
    /// stage's opening status line.
    fn enter_client_stage(&mut self, id: &str) -> (r: Action)
        ensures
            started_client_stage(*final(self), r, id@, old(self).log@),
            final(self).name@ == old(self).name@,
            final(self).env == old(self).env,
            final(self).has_init == old(self).has_init,
            final(self).local_hash@ == old(self).local_hash@,
    {
        if self.has_init && runs_init_scripts(self.env) {
            self.log.push(strutil::strcat3(
                "🚀 Running initialization script for \"",
                self.name.as_str(),
                "\"",
            ));
            proof {
                assert(self.log@.take(old(self).log@.len() as int) =~= old(self).log@);
            }
            self.phase = Phase::AwaitInit { id: String::from_str(id) };
            Action::RunInit { id: String::from_str(id) }
        } else {
            self.log.push(strutil::strcat3("🎭 binding \"", self.name.as_str(), "\" contract"));
            proof {
                assert(self.log@.take(old(self).log@.len() as int) =~= old(self).log@);
            }
            self.phase = Phase::AwaitBindings { id: String::from_str(id) };
            Action::Bind { id: String::from_str(id) }
        }
    }

    /// Takes the fetch outcome: an equal hash finishes the contract as up
    /// to date with no install and no deploy; otherwise the policy
    /// decides between redeploying and rejecting.
    pub fn on_fetched(&mut self, outcome: FetchOutcome) -> (r: Action)
        requires
            old(self).phase matches Phase::AwaitFetch { .. },
        ensures
            final(self).name@ == old(self).name@,
            final(self).env == old(self).env,
            final(self).has_init == old(self).has_init,
            final(self).local_hash@ == old(self).local_hash@,
            old(self).phase matches Phase::AwaitFetch { id } ==> ({
                let st = classify_spec(
                    Option::Some(id),
                    Option::Some(outcome),
                    old(self).local_hash@,
                );
                match decide_spec(st, old(self).env) {
                    Decision::Skip => {
                        &&& final(self).phase matches Phase::Done { id: None }
                        &&& r matches Action::Finished { id: None }
                        &&& log_extended(
                            final(self).log@,
                            old(self).log@,
                            line_up_to_date(old(self).name@),
                        )
                    },
                    Decision::Proceed => {
                        &&& final(self).phase is AwaitInstall
                        &&& r matches Action::Install { wasm } && wasm@ == "target/loam/"@ + old(
                            self,
                        ).name@ + ".wasm"@
                        &&& log_extended2(
                            final(self).log@,
                            old(self).log@,
                            line_updating(old(self).name@),
                            line_installing(old(self).name@),
                        )
                    },
                    Decision::Reject => {
                        &&& final(self).phase is Failed
                        &&& r matches Action::Fail { error } && error matches
                            Error::MissingContractID(n) && n@ == old(self).name@
                        &&& final(self).log@ == old(self).log@
                    },
                }
            }),
    {
        let st = match &self.phase {
            Phase::AwaitFetch { id } => {
                let alias = Some(id.clone());
                let fetched = Some(outcome);
                classify(&alias, &fetched, self.local_hash.as_str())
            },
            _ => {
                proof {
                    assert(false);
                }
                DeployState::NotDeployed
            },
        };
        match decide(st, self.env) {
            Decision::Skip => {
                self.log.push(strutil::strcat3(
                    "✅ Contract \"",
                    self.name.as_str(),
                    "\" is up to date",
                ));
                proof {
                    assert(self.log@.take(old(self).log@.len() as int) =~= old(self).log@);
                }
                self.phase = Phase::Done { id: None };
                Action::Finished { id: None }
            },
            Decision::Proceed => {
                self.log.push(strutil::strcat3(
                    "🔄 Updating contract \"",
                    self.name.as_str(),
                    "\"",
                ));
                self.log.push(strutil::strcat3(
                    "📲 installing \"",
                    self.name.as_str(),
                    "\" wasm bytecode on-chain...",
                ));
                proof {
                    assert(self.log@.take(old(self).log@.len() as int) =~= old(self).log@);
                }
                self.phase = Phase::AwaitInstall;
                Action::Install { wasm: wasm_file_name(self.name.as_str()) }
            },
            Decision::Reject => {
                self.phase = Phase::Failed;
                Action::Fail { error: Error::MissingContractID(self.name.clone()) }
            },
        }
    }

    /// Takes the install result: the returned code hash is echoed and the
    /// deployment is requested from it.
    pub fn on_installed(&mut self, hash: &str) -> (r: Action)
        requires
            old(self).phase is AwaitInstall,
        ensures
            final(self).name@ == old(self).name@,
            final(self).env == old(self).env,
            final(self).has_init == old(self).has_init,
            final(self).local_hash@ == old(self).local_hash@,
            final(self).phase matches Phase::AwaitDeploy { hash: h } && h@ == hash@,
            r matches Action::Deploy { hash: h } && h@ == hash@,
            log_extended2(
                final(self).log@,
                old(self).log@,
                line_hash(hash@),
                line_instantiating(old(self).name@),
            ),
    {
        self.log.push(strutil::strcat("    ↳ hash: ", hash));
        self.log.push(strutil::strcat3(
            "🪞 instantiating \"",
            self.name.as_str(),
            "\" smart contract",
        ));
        proof {
            assert(self.log@.take(old(self).log@.len() as int) =~= old(self).log@);
        }
        self.phase = Phase::AwaitDeploy { hash: String::from_str(hash) };
        Action::Deploy { hash: String::from_str(hash) }
    }

    /// Takes the fresh deployment's identifier: the alias is persisted
    /// under the network passphrase, and the client stage begins.
    pub fn on_deployed(&mut self, id: &str, passphrase: &str, store: &mut AliasStore) -> (r:
        Action)
        requires
            old(self).phase matches Phase::AwaitDeploy { .. },
            old(store).wf(),
        ensures
            final(self).name@ == old(self).name@,
            final(self).env == old(self).env,
            final(self).has_init == old(self).has_init,
            final(self).local_hash@ == old(self).local_hash@,
            final(store).wf(),
            final(store).has(old(self).name@, passphrase@, id@),
            forall|id2: Seq<char>|
                final(store).has(old(self).name@, passphrase@, id2) ==> id2 == id@,
            forall|n: Seq<char>, p: Seq<char>, i2: Seq<char>|
                !(n == old(self).name@ && p == passphrase@) ==> (final(store).has(n, p, i2) <==>
                    old(store).has(n, p, i2)),
            final(store).size() >= old(store).size(),
            ({
                let mid = final(self).log@.take(old(self).log@.len() as int + 1);
                &&& final(self).log@.len() >= old(self).log@.len() + 1
                &&& mid.take(old(self).log@.len() as int) == old(self).log@
                &&& mid.last()@ == line_contract_id(id@)
                &&& started_client_stage(*final(self), r, id@, mid)
            }),
    {
        self.log.push(strutil::strcat("    ↳ contract_id: ", id));
        store.save(self.name.as_str(), passphrase, id);
        let ghost mid_log = self.log@;
        let r = self.enter_client_stage(id);
        proof {
            assert(final(self).log@.take(mid_log.len() as int) == mid_log);
            assert(mid_log.take(old(self).log@.len() as int) =~= old(self).log@);
        }
        r
    }

    /// Takes the completed initialization script and moves to binding
    /// generation.
    pub fn on_init_done(&mut self) -> (r: Action)
        requires
            old(self).phase matches Phase::AwaitInit { .. },
        ensures
            final(self).name@ == old(self).name@,
            final(self).env == old(self).env,
            old(self).phase matches Phase::AwaitInit { id } ==> ({
                &&& final(self).phase matches Phase::AwaitBindings { id: i } && i@ == id@
                &&& r matches Action::Bind { id: i } && i@ == id@
                &&& log_extended2(
                    final(self).log@,
                    old(self).log@,
                    line_init_done(old(self).name@),
                    line_binding(old(self).name@),
                )
            }),
    {
        let id = match &self.phase {
            Phase::AwaitInit { id } => id.clone(),
            _ => {
                proof {
                    assert(false);
                }
                String::new()
            },
        };
        self.log.push(strutil::strcat3(
            "✅ Initialization script for \"",
            self.name.as_str(),
            "\" completed successfully",
        ));
        self.log.push(strutil::strcat3("🎭 binding \"", self.name.as_str(), "\" contract"));
        proof {
            assert(self.log@.take(old(self).log@.len() as int) =~= old(self).log@);
        }
        self.phase = Phase::AwaitBindings { id: id.clone() };
        Action::Bind { id }
    }

    /// Takes the generated bindings and asks for the import/config file.
    pub fn on_bound(&mut self) -> (r: Action)
        requires
            old(self).phase matches Phase::AwaitBindings { .. },
        ensures
            final(self).name@ == old(self).name@,
            final(self).env == old(self).env,
            old(self).phase matches Phase::AwaitBindings { id } ==> ({
                &&& final(self).phase matches Phase::AwaitImport { id: i } && i@ == id@
                &&& r matches Action::WriteImport { id: i } && i@ == id@
                &&& log_extended(
                    final(self).log@,
                    old(self).log@,
                    line_importing(old(self).name@),
                )
            }),
    {
        let id = match &self.phase {
            Phase::AwaitBindings { id } => id.clone(),
            _ => {
                proof {
                    assert(false);
                }
                String::new()
            },
        };
        self.log.push(strutil::strcat3("🍽️ importing \"", self.name.as_str(), "\" contract"));
        proof {
            assert(self.log@.take(old(self).log@.len() as int) =~= old(self).log@);
        }
        self.phase = Phase::AwaitImport { id: id.clone() };
        Action::WriteImport { id }
    }

    /// Takes the written import file; the contract is finished.
    pub fn on_imported(&mut self) -> (r: Action)
        requires
            old(self).phase matches Phase::AwaitImport { .. },
        ensures
            final(self).name@ == old(self).name@,
            final(self).env == old(self).env,
            old(self).phase matches Phase::AwaitImport { id } ==> ({
                &&& final(self).phase matches Phase::Done { id: i } && i matches Some(i2) && i2@
                    == id@
                &&& r matches Action::Finished { id: i } && i matches Some(i2) && i2@ == id@
                &&& final(self).log@ == old(self).log@
            }),
    {
        let id = match &self.phase {
            Phase::AwaitImport { id } => id.clone(),
            _ => {
                proof {
                    assert(false);
                }
                String::new()
            },
        };
        self.phase = Phase::Done { id: Some(id.clone()) };
        Action::Finished { id: Some(id) }
    }
}

} // verus!

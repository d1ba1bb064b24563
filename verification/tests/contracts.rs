use loam::alias::AliasStore;
use loam::clients::{self, check_artifacts, handle_production_contracts, Error, FetchOutcome, LoamEnv};
use loam::env_toml::Contract;
use loam::runner::{Action, ContractFlow};

fn contract(client: bool, id: Option<&str>, init: Option<&str>) -> Contract {
    Contract {
        client,
        id: id.map(|s| s.to_string()),
        init: init.map(|s| s.to_string()),
    }
}

fn log_contains(flow: &ContractFlow, needle: &str) -> bool {
    flow.log.iter().any(|l| l.contains(needle))
}

/// Drives one contract through install, deploy, bindings and import,
/// returning its finished flow.
fn deploy_contract(
    name: &str,
    settings: Option<&Contract>,
    local_hash: &str,
    passphrase: &str,
    store: &mut AliasStore,
    install_hash: &str,
    new_id: &str,
) -> ContractFlow {
    let (mut flow, action) = ContractFlow::start(
        name,
        LoamEnv::Development,
        settings,
        local_hash,
        passphrase,
        store,
    );
    let mut action = action;
    loop {
        action = match action {
            Action::Fetch { id } => {
                let _ = id;
                // The artifact changed: the fetched hash is the one
                // recorded at the previous deploy.
                flow.on_fetched(FetchOutcome::Found("previous-hash".to_string()))
            }
            Action::Install { wasm } => {
                assert_eq!(wasm, format!("target/loam/{name}.wasm"));
                flow.on_installed(install_hash)
            }
            Action::Deploy { hash } => {
                assert_eq!(hash, install_hash);
                flow.on_deployed(new_id, passphrase, store)
            }
            Action::RunInit { .. } => flow.on_init_done(),
            Action::Bind { .. } => flow.on_bound(),
            Action::WriteImport { .. } => flow.on_imported(),
            Action::Finished { .. } => break,
            Action::Fail { error } => panic!("unexpected failure: {:?}", error),
        };
    }
    flow
}

#[test]
fn contract_alias_skips_install() {
    let passphrase = "Standalone Network ; February 2017";
    let settings = contract(true, None, None);
    let mut store = AliasStore::new();

    // First run: no alias yet, so the contract is installed, deployed and
    // imported.
    let flow1 = deploy_contract(
        "hello_world",
        Some(&settings),
        "hash-one",
        passphrase,
        &mut store,
        "hash-one",
        "ID1",
    );
    assert!(log_contains(&flow1, "🍽️ importing \"hello_world\" contract"));
    let id1 = store.get("hello_world", passphrase).expect("alias saved");
    assert_eq!(id1, "ID1");

    // Second run with the unchanged artifact: the alias is found, the
    // hashes match, and nothing is installed or deployed.
    let (mut flow2, action2) = ContractFlow::start(
        "hello_world",
        LoamEnv::Development,
        Some(&settings),
        "hash-one",
        passphrase,
        &store,
    );
    let fetch_id = match action2 {
        Action::Fetch { ref id } => id.clone(),
        ref other => panic!("expected a fetch, got {:?}", other),
    };
    assert_eq!(fetch_id, "ID1");
    let done = flow2.on_fetched(FetchOutcome::Found("hash-one".to_string()));
    assert!(matches!(done, Action::Finished { .. }));
    assert!(log_contains(&flow2, "✅ Contract \"hello_world\" is up to date"));
    assert_eq!(store.get("hello_world", passphrase).unwrap(), "ID1");

    // Third run after the package's source changed: the mismatch is
    // detected, the contract is redeployed, and the alias moves to the
    // new identifier.
    let (mut flow3, action3) = ContractFlow::start(
        "hello_world",
        LoamEnv::Development,
        Some(&settings),
        "hash-two",
        passphrase,
        &store,
    );
    assert!(matches!(action3, Action::Fetch { .. }));
    let next = flow3.on_fetched(FetchOutcome::Found("hash-one".to_string()));
    assert!(log_contains(&flow3, "🔄 Updating contract \"hello_world\""));
    assert!(matches!(next, Action::Install { .. }));
    let next = flow3.on_installed("hash-two");
    assert!(matches!(next, Action::Deploy { .. }));
    let next = flow3.on_deployed("ID2", passphrase, &mut store);
    assert!(matches!(next, Action::Bind { .. }));
    let id2 = store.get("hello_world", passphrase).unwrap();
    assert_eq!(id2, "ID2");
    assert_ne!(id2, id1);

    // Production identifies a contract purely by an explicit,
    // pre-existing identifier.
    let by_id = vec![(
        "hello_world".to_string(),
        contract(
            true,
            Some("CDMLFMKMMD7MWZP3FKUBZPVHTUEDLSX4BYGYKH4GCESXYHS3IHQ4EIG4"),
            None,
        ),
    )];
    let planned = handle_production_contracts(&by_id).expect("a valid identifier is accepted");
    assert_eq!(planned.len(), 1);
    assert_eq!(planned[0].0, "hello_world");

    // Production without an identifier is rejected with the demand for
    // an explicit one.
    let by_name = vec![
        ("hello_world".to_string(), contract(true, None, None)),
        ("soroban_custom_types_contract".to_string(), contract(false, None, None)),
        ("soroban_auth_contract".to_string(), contract(false, None, None)),
        ("soroban_token_contract".to_string(), contract(false, None, None)),
    ];
    let err = handle_production_contracts(&by_name).unwrap_err();
    assert!(err
        .message()
        .contains("️Contract must be identified by its ID in production or staging"));
}

#[test]
fn contract_with_bad_name_prints_useful_error() {
    let contracts = vec![
        ("hello".to_string(), contract(true, None, None)),
        ("soroban_increment_contract".to_string(), contract(false, None, None)),
        ("soroban_custom_types_contract".to_string(), contract(false, None, None)),
        ("soroban_auth_contract".to_string(), contract(false, None, None)),
        ("soroban_token_contract".to_string(), contract(false, None, None)),
    ];
    let built = vec![
        "hello_world".to_string(),
        "soroban_increment_contract".to_string(),
        "soroban_custom_types_contract".to_string(),
        "soroban_auth_contract".to_string(),
        "soroban_token_contract".to_string(),
    ];
    let err = check_artifacts(&contracts, &built).unwrap_err();
    assert!(matches!(err, Error::BadContractName(_)));
    assert!(err.message().contains("No contract named \"hello\""));
}

fn run_full_pipeline(contracts: &[(String, Contract)], store: &mut AliasStore) -> Vec<String> {
    let mut stderr: Vec<String> = Vec::new();
    let network = loam::env_toml::Network {
        name: None,
        rpc_url: Some("http://localhost:8000/rpc".to_string()),
        network_passphrase: Some("Standalone Network ; February 2017".to_string()),
    };
    match clients::add_network_to_env(&network).unwrap() {
        loam::clients::NetworkDirective::Use { log, .. } => stderr.push(log),
        other => panic!("expected a direct network, got {:?}", other),
    }
    let (log, create) = clients::account_action("alice", false);
    assert!(create);
    stderr.push(log);
    for (name, settings) in contracts {
        let flow = deploy_contract(
            name,
            Some(settings),
            "hash-one",
            "Standalone Network ; February 2017",
            store,
            "hash-one",
            &format!("ID-{name}"),
        );
        stderr.extend(flow.log.iter().cloned());
    }
    stderr
}

#[test]
fn contracts_built() {
    let names = [
        "soroban_auth_contract",
        "soroban_custom_types_contract",
        "hello_world",
        "soroban_increment_contract",
    ];
    let contracts: Vec<(String, Contract)> = names
        .iter()
        .map(|c| (c.to_string(), contract(true, None, None)))
        .collect();
    let mut store = AliasStore::new();
    let stderr = run_full_pipeline(&contracts, &mut store);
    let joined = stderr.join("\n");
    assert!(joined.contains("creating keys for \"alice\""));
    assert!(joined.contains("using network at http://localhost:8000/rpc"));
    for c in names {
        assert!(joined.contains(&format!("installing \"{c}\" wasm bytecode on-chain")));
        assert!(joined.contains(&format!("instantiating \"{c}\" smart contract")));
        assert!(joined.contains(&format!("binding \"{c}\" contract")));
        assert!(joined.contains(&format!("importing \"{c}\" contract")));
        // The contract was deployed, bound and imported: its alias is
        // recorded under the active passphrase.
        assert!(store
            .get(c, "Standalone Network ; February 2017")
            .is_some());
    }
}

#[test]
fn contracts_built_by_default() {
    // No contracts table at all: every package still builds, deploys and
    // imports with default settings.
    let names = [
        "soroban_auth_contract",
        "soroban_custom_types_contract",
        "hello_world",
        "soroban_increment_contract",
    ];
    let mut store = AliasStore::new();
    let mut stderr: Vec<String> = Vec::new();
    let network = loam::env_toml::Network {
        name: None,
        rpc_url: Some("http://localhost:8000/rpc".to_string()),
        network_passphrase: Some("Standalone Network ; February 2017".to_string()),
    };
    match clients::add_network_to_env(&network).unwrap() {
        loam::clients::NetworkDirective::Use { log, .. } => stderr.push(log),
        other => panic!("expected a direct network, got {:?}", other),
    }
    let (log, _) = clients::account_action("alice", false);
    stderr.push(log);
    for c in names {
        let flow = deploy_contract(
            c,
            None,
            "hash-one",
            "Standalone Network ; February 2017",
            &mut store,
            "hash-one",
            &format!("ID-{c}"),
        );
        stderr.extend(flow.log.iter().cloned());
    }
    let joined = stderr.join("\n");
    assert!(joined.contains("creating keys for \"alice\""));
    assert!(joined.contains("using network at http://localhost:8000/rpc"));
    for c in names {
        assert!(joined.contains(&format!("installing \"{c}\" wasm bytecode on-chain")));
        assert!(joined.contains(&format!("instantiating \"{c}\" smart contract")));
        assert!(joined.contains(&format!("binding \"{c}\" contract")));
        assert!(joined.contains(&format!("importing \"{c}\" contract")));
    }
}

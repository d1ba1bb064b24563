use loam::alias::AliasStore;
use loam::build_cmd::{artifact_file_name, set_default_profile_flags, Cmd};
use loam::clients::{
    handle_production_contracts, reorder_package_names, settings_for, Args, Error, LoamEnv,
};
use loam::commands;
use loam::deps::Package;
use loam::env_toml::{Contract, Environment, Network};
use loam::update_env;

fn contract(client: bool, id: Option<&str>) -> Contract {
    Contract { client, id: id.map(|s| s.to_string()), init: None }
}

#[test]
fn replace_lines_replaces_or_appends() {
    let updated = update_env::replace_lines_starting_with(
        "A=1\nB=2\nA=3",
        "A=",
        "A=9",
    );
    assert_eq!(updated, "A=9\nB=2\nA=9");
    let appended = update_env::replace_lines_starting_with("B=2", "A=", "A=9");
    assert_eq!(appended, "B=2\nA=9");
    let cmd = update_env::Cmd {
        name: "A".to_string(),
        value: Some("9".to_string()),
        env_file: ".env".to_string(),
    };
    assert_eq!(cmd.new_env_contents("A=1\nB=2", "9"), "A=9\nB=2");
    assert_eq!(cmd.new_env_contents("", "9"), "A=9");
}

#[test]
fn reorder_puts_configured_contracts_first() {
    let names = vec![
        "zeta".to_string(),
        "alpha".to_string(),
        "beta".to_string(),
    ];
    let contracts = vec![
        ("beta".to_string(), contract(true, None)),
        ("zeta".to_string(), contract(false, None)),
        ("missing".to_string(), contract(true, None)),
    ];
    let reordered = reorder_package_names(&names, Some(&contracts));
    assert_eq!(reordered, vec!["beta".to_string(), "zeta".to_string(), "alpha".to_string()]);
    let untouched = reorder_package_names(&names, None);
    assert_eq!(untouched, names);
}

#[test]
fn production_contracts_demand_valid_identifiers() {
    let good = "CDMLFMKMMD7MWZP3FKUBZPVHTUEDLSX4BYGYKH4GCESXYHS3IHQ4EIG4";
    // A configured identifier is validated and used.
    let cs = vec![("token".to_string(), contract(true, Some(good)))];
    let planned = handle_production_contracts(&cs).unwrap();
    assert_eq!(planned, vec![("token".to_string(), good.to_string())]);
    // A malformed identifier is refused by value.
    let cs = vec![("token".to_string(), contract(true, Some("CNOTVALID")))];
    let err = handle_production_contracts(&cs).unwrap_err();
    assert!(matches!(err, Error::InvalidContractID(_)));
    assert!(err.message().contains("Invalid contract ID: \"CNOTVALID\""));
    // Client-disabled contracts are not touched at all.
    let cs = vec![("token".to_string(), contract(false, Some("CNOTVALID")))];
    assert_eq!(handle_production_contracts(&cs).unwrap(), vec![]);
}

#[test]
fn alias_store_updates_without_deleting() {
    let mut store = AliasStore::new();
    assert!(store.get("a", "P").is_none());
    store.save("a", "P", "ID1");
    store.save("b", "P", "ID2");
    store.save("a", "Q", "ID3");
    assert_eq!(store.get("a", "P").unwrap(), "ID1");
    assert_eq!(store.get("b", "P").unwrap(), "ID2");
    assert_eq!(store.get("a", "Q").unwrap(), "ID3");
    // Updating one key leaves every other key alone.
    store.save("a", "P", "ID9");
    assert_eq!(store.get("a", "P").unwrap(), "ID9");
    assert_eq!(store.get("b", "P").unwrap(), "ID2");
    assert_eq!(store.get("a", "Q").unwrap(), "ID3");
}

#[test]
fn build_command_assembles_expected_arguments() {
    let cmd = Cmd {
        list: false,
        manifest_path: "Cargo.toml".to_string(),
        package: None,
        profile: None,
        features: Some("serde,extra missing".to_string()),
        all_features: false,
        no_default_features: false,
        out_dir: None,
        print_commands_only: false,
        build_clients: false,
        build_clients_args: Args { env: None },
    };
    let pkg = Package {
        name: "my-pkg".to_string(),
        version: "0.1.0".to_string(),
        manifest_path: "/ws/my-pkg/Cargo.toml".to_string(),
        is_contract: false,
        is_subcontract: false,
        deps: vec![],
        targets_cdylib: true,
        features: vec!["serde".to_string(), "extra".to_string()],
    };
    let args = cmd.build_package_command(&pkg, "/ws");
    let line = Cmd::command_line(&args);
    assert!(line.starts_with("cargo rustc --manifest-path=my-pkg/Cargo.toml"));
    assert!(line.contains("--crate-type=cdylib"));
    assert!(line.contains("--target=wasm32-unknown-unknown"));
    assert!(line.contains("--release"));
    // The requested features are narrowed to the available ones.
    assert!(line.contains("--features=serde,extra"));
    assert!(!line.contains("missing"));
    // Without an explicit profile the default profile flags follow.
    assert!(line.contains("-C opt-level=z"));
    assert!(line.contains("-C panic=abort"));
    assert_eq!(set_default_profile_flags().len(), 17);
    assert_eq!(artifact_file_name("my-pkg"), "my_pkg.wasm");

    // An explicit non-release profile replaces both.
    let cmd2 = Cmd { profile: Some("fast".to_string()), features: None, ..cmd };
    let args2 = cmd2.build_package_command(&pkg, "/ws");
    let line2 = Cmd::command_line(&args2);
    assert!(line2.contains("--profile=fast"));
    assert!(!line2.contains("opt-level"));
}

#[test]
fn selected_environment_is_found_or_refused() {
    let dev = Environment {
        accounts: None,
        network: Network { name: None, rpc_url: None, network_passphrase: None },
        contracts: Some(vec![("foo".to_string(), contract(true, None))]),
    };
    let parsed = Some(vec![("development".to_string(), dev)]);
    let found = Environment::get(parsed, "development").unwrap().unwrap();
    let settings = settings_for(found.contracts.as_ref(), "foo").unwrap();
    assert!(settings.client);
    assert!(settings_for(found.contracts.as_ref(), "bar").is_none());

    let dev2 = Environment {
        accounts: None,
        network: Network { name: None, rpc_url: None, network_passphrase: None },
        contracts: None,
    };
    let err = Environment::get(Some(vec![("development".to_string(), dev2)]), "staging")
        .unwrap_err();
    assert!(err.message().contains("no settings for current LOAM_ENV (staging)"));
    // A missing configuration file is a no-op, not an error.
    assert!(Environment::get(None, "development").unwrap().is_none());
}

#[test]
fn root_command_wraps_a_subcommand() {
    let root = commands::Root::new(commands::Cmd::UpdateEnv(update_env::Cmd {
        name: "X".to_string(),
        value: None,
        env_file: ".env".to_string(),
    }));
    assert!(matches!(root.cmd, commands::Cmd::UpdateEnv(_)));
    let args = Args { env: Some(LoamEnv::Staging) };
    assert_eq!(args.loam_env(LoamEnv::Production), "staging");
    let args = Args { env: None };
    assert_eq!(args.loam_env(LoamEnv::Production), "production");
    let tpl = Args { env: Some(LoamEnv::Development) }.write_contract_template("foo", "ID1", "P");
    assert!(tpl.contains("import * as Client from 'foo';"));
    assert!(tpl.contains("contractId: 'ID1'"));
    assert!(tpl.contains("networkPassphrase: 'P'"));
    assert!(tpl.contains("allowHttp: true"));
    let tpl2 = Args { env: Some(LoamEnv::Testing) }.write_contract_template("foo", "ID1", "P");
    assert!(!tpl2.contains("allowHttp"));
}

#[test]
fn no_environments_toml_ends_after_contract_build() {
    // With no environments.toml at all the client step is a no-op: the
    // run ends after the contract build, touching nothing.
    let selected = Environment::get(None, "production").unwrap();
    assert!(selected.is_none());
}

#[test]
fn artifact_hashes_are_hex_digests() {
    // The recorded hash is the lowercase hex of the bytes' digest; known
    // digests pin both the hashing and the encoding.
    assert_eq!(
        loam::clients::artifact_hash(&vec![]),
        "e3b0c44298fc1c149afbf4c8996fb92427ae41e4649b934ca495991b7852b855"
    );
    assert_eq!(
        loam::clients::artifact_hash(&b"abc".to_vec()),
        "ba7816bf8f01cfea414140de5dae2223b00361a396177a9cb410ff61f20015ad"
    );
}

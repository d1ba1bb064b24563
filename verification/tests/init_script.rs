use loam::alias::AliasStore;
use loam::clients::LoamEnv;
use loam::env_toml::Contract;
use loam::init_script::{process_init_line, split_commands};
use loam::runner::{invoke_log, Action, ContractFlow};
use loam::strutil::split_lines;

fn run_script(script: &str, contract_id: &str, outputs_per_line: &[Vec<String>]) -> Vec<String> {
    let mut stderr: Vec<String> = Vec::new();
    let lines = split_lines(script);
    let mut line_idx = 0;
    for line in &lines {
        let outs = outputs_per_line
            .get(line_idx)
            .cloned()
            .unwrap_or_default();
        line_idx += 1;
        match process_init_line(line.as_str(), &outs, contract_id) {
            Ok(None) => {}
            Ok(Some(args)) => stderr.push(invoke_log(&args)),
            Err(e) => panic!("script line refused: {:?}", e),
        }
    }
    stderr
}

#[test]
fn build_command_runs_init() {
    let settings = Contract {
        client: true,
        id: None,
        init: Some(
            "initialize --symbol ABND --decimal 7 --name abundance --admin alice\nmint --amount 2000000 --to alice\n"
                .to_string(),
        ),
    };
    let passphrase = "Standalone Network ; February 2017";
    let mut store = AliasStore::new();
    let (mut flow, action) = ContractFlow::start(
        "soroban_token_contract",
        LoamEnv::Development,
        Some(&settings),
        "hash-one",
        passphrase,
        &store,
    );
    assert!(matches!(action, Action::Install { .. }));
    let action = flow.on_installed("hash-one");
    assert!(matches!(action, Action::Deploy { .. }));
    let action = flow.on_deployed("CTOKEN", passphrase, &mut store);
    let script_id = match action {
        Action::RunInit { ref id } => id.clone(),
        ref other => panic!("expected the init script to run, got {:?}", other),
    };

    let mut stderr = run_script(settings.init.as_deref().unwrap(), &script_id, &[]);
    let action = flow.on_init_done();
    assert!(matches!(action, Action::Bind { .. }));
    stderr.extend(flow.log.iter().cloned());
    let joined = stderr.join("\n");

    // The invoke commands run with the default source account.
    assert!(joined.contains(" -- initialize --symbol ABND --decimal 7 --name abundance --admin alice"));
    assert!(joined.contains(" -- mint --amount 2000000 --to alice"));
    assert!(joined.contains(
        "✅ Initialization script for \"soroban_token_contract\" completed successfully"
    ));

    // Selecting a source account per line routes it into the invocation.
    let script_bob = "STELLAR_ACCOUNT=bob initialize --symbol ABND --decimal 7 --name abundance --admin bob \nSTELLAR_ACCOUNT=bob mint --amount 2000000 --to bob \n";
    let stderr2 = run_script(script_bob, "CTOKEN", &[]);
    let joined2 = stderr2.join("\n");
    assert!(joined2.contains(
        "--source-account bob -- initialize --symbol ABND --decimal 7 --name abundance --admin bob"
    ));
    assert!(joined2.contains("--source-account bob -- mint --amount 2000000 --to bob"));
}

#[test]
fn init_handles_quotations_and_subcommands_in_script() {
    let script = "    test_init --resolution 300000 --assets '[{\"Stellar\": \"$(stellar contract id asset --asset native)\"} ]' --decimals 14 --base '{\"Stellar\":\"$(stellar contract id asset --asset native)\"}'\n    ";
    let lines = split_lines(script);

    // Both embedded subcommands are found, in order.
    let trimmed = lines[0].trim();
    let cmds = split_commands(trimmed);
    assert_eq!(cmds.len(), 2);
    assert_eq!(cmds[0], "stellar contract id asset --asset native");
    assert_eq!(cmds[1], "stellar contract id asset --asset native");

    // Their outputs are spliced back in before the line is split into
    // words and invoked.
    let asset_id = "CDMLFMKMMD7MWZP3FKUBZPVHTUEDLSX4BYGYKH4GCESXYHS3IHQ4EIG4";
    let outputs = vec![asset_id.to_string(), asset_id.to_string()];
    let stderr = run_script(script, "CTYPES", &[outputs]);
    let joined = stderr.join("\n");
    assert!(joined.contains(" -- test_init --resolution 300000"));
    assert!(joined.contains(asset_id));

    // The quoted JSON survives shell splitting as single words.
    let line = lines[0].trim();
    let outs = vec![asset_id.to_string(), asset_id.to_string()];
    let args = process_init_line(line, &outs, "CTYPES").unwrap().unwrap();
    assert!(args.contains(&format!("[{{\"Stellar\": \"{asset_id}\"}} ]")));

    // The completion status line closes the script.
    let settings = Contract {
        client: true,
        id: Some("CTYPES".to_string()),
        init: Some(script.to_string()),
    };
    let store = AliasStore::new();
    let (mut flow, action) = ContractFlow::start(
        "soroban_custom_types_contract",
        LoamEnv::Development,
        Some(&settings),
        "hash-one",
        "P",
        &store,
    );
    assert!(matches!(action, Action::RunInit { .. }));
    let _ = flow.on_init_done();
    assert!(flow.log.iter().any(|l| l.contains(
        "✅ Initialization script for \"soroban_custom_types_contract\" completed successfully"
    )));
}

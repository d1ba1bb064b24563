use loam::clients::{
    classify, decide, contract_hash_matches, fetch_outcome, permits_redeploy,
    requires_explicit_ids, runs_init_scripts, Decision, DeployState, Error, FetchOutcome, LoamEnv,
};

#[test]
fn classification_follows_alias_and_hashes() {
    // No alias at all: not deployed.
    let st = classify(&None, &None, "H");
    assert_eq!(st, DeployState::NotDeployed);
    // An alias whose contract vanished from the network: not deployed.
    let st = classify(
        &Some("ID".to_string()),
        &Some(FetchOutcome::NotFound),
        "H",
    );
    assert_eq!(st, DeployState::NotDeployed);
    // Equal hashes: up to date.
    let st = classify(
        &Some("ID".to_string()),
        &Some(FetchOutcome::Found("H".to_string())),
        "H",
    );
    assert_eq!(st, DeployState::UpToDate);
    // Differing hashes: needs an update.
    let st = classify(
        &Some("ID".to_string()),
        &Some(FetchOutcome::Found("OTHER".to_string())),
        "H",
    );
    assert_eq!(st, DeployState::NeedsUpdate);
}

#[test]
fn restrictive_environment_rejects_mismatch() {
    // In staging and production a mismatch is rejected, never silently
    // redeployed; in development and testing it proceeds.
    for env in [LoamEnv::Staging, LoamEnv::Production] {
        assert!(!permits_redeploy(env));
        assert!(requires_explicit_ids(env));
        assert!(!runs_init_scripts(env));
        assert_eq!(decide(DeployState::NeedsUpdate, env), Decision::Reject);
        assert_eq!(decide(DeployState::NotDeployed, env), Decision::Reject);
    }
    for env in [LoamEnv::Development, LoamEnv::Testing] {
        assert!(permits_redeploy(env));
        assert!(!requires_explicit_ids(env));
        assert!(runs_init_scripts(env));
        assert_eq!(decide(DeployState::NeedsUpdate, env), Decision::Proceed);
        assert_eq!(decide(DeployState::NotDeployed, env), Decision::Proceed);
    }
    // Up to date is skipped everywhere.
    for env in [
        LoamEnv::Development,
        LoamEnv::Testing,
        LoamEnv::Staging,
        LoamEnv::Production,
    ] {
        assert_eq!(decide(DeployState::UpToDate, env), Decision::Skip);
    }
}

#[test]
fn fetch_errors_divide_into_absent_and_fatal() {
    // The fetched hash decides directly.
    assert_eq!(
        contract_hash_matches(&Ok("H".to_string()), "H").unwrap(),
        true
    );
    assert_eq!(
        contract_hash_matches(&Ok("OTHER".to_string()), "H").unwrap(),
        false
    );
    // A not-found reply counts as no deployment, not as an error.
    let r = contract_hash_matches(&Err("error: Contract not found".to_string()), "H");
    assert_eq!(r.unwrap(), false);
    // Any other fetch failure propagates.
    let r = contract_hash_matches(&Err("connection refused".to_string()), "H");
    assert!(matches!(r, Err(Error::ContractFetch(_))));
}

#[test]
fn fetch_replies_are_interpreted_once() {
    match fetch_outcome(Ok("H".to_string())) {
        Ok(FetchOutcome::Found(h)) => assert_eq!(h, "H"),
        other => panic!("expected the fetched hash, got {:?}", other),
    }
    assert!(matches!(
        fetch_outcome(Err("error: Contract not found".to_string())),
        Ok(FetchOutcome::NotFound)
    ));
    assert!(matches!(
        fetch_outcome(Err("connection refused".to_string())),
        Err(Error::ContractFetch(_))
    ));
}

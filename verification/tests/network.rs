use loam::clients::{add_network_to_env, Error, NetworkDirective};
use loam::env_toml::Network;
use loam::util::{network_passphrase, FUTURENET, LOCAL, MAINNET, TESTNET};

#[test]
fn run_network_from_rpc_and_passphrase() {
    let network = Network {
        name: None,
        rpc_url: Some("http://localhost:8000/rpc".to_string()),
        network_passphrase: Some("Standalone Network ; February 2017".to_string()),
    };
    match add_network_to_env(&network).unwrap() {
        NetworkDirective::Use { rpc_url, network_passphrase, log } => {
            assert_eq!(rpc_url, "http://localhost:8000/rpc");
            assert_eq!(network_passphrase, "Standalone Network ; February 2017");
            assert!(log.contains("🌐 using network at http://localhost:8000/rpc"));
        }
        other => panic!("expected a direct network, got {:?}", other),
    }
}

#[test]
fn run_named_network() {
    let network = Network {
        name: Some("lol".to_string()),
        rpc_url: None,
        network_passphrase: None,
    };
    match add_network_to_env(&network).unwrap() {
        NetworkDirective::Lookup { name, log } => {
            assert_eq!(name, "lol");
            assert!(log.contains("🌐 using lol network"));
        }
        other => panic!("expected a named-network lookup, got {:?}", other),
    }
}

#[test]
fn malformed_network_is_refused() {
    let network = Network { name: None, rpc_url: Some("http://x".to_string()), network_passphrase: None };
    let err = add_network_to_env(&network).unwrap_err();
    assert!(matches!(err, Error::MalformedNetwork));
    assert!(err.message().contains("invalid network"));
}

#[test]
fn known_network_passphrases() {
    assert_eq!(network_passphrase("local"), LOCAL);
    assert_eq!(network_passphrase("testnet"), TESTNET);
    assert_eq!(network_passphrase("future"), FUTURENET);
    assert_eq!(network_passphrase("main"), MAINNET);
    assert_eq!(network_passphrase("LOCAL"), LOCAL);
    assert_eq!(network_passphrase("TestNet"), TESTNET);
    assert_eq!(network_passphrase("unknown"), "");
    assert_eq!(LOCAL, "Standalone Network ; February 2017");
}

use loam::clients::{add_network_to_env, NetworkDirective};
use loam::dev::{DevAction, DevLoop, EventKind, Message, Watcher};
use loam::env_toml::Network;

#[test]
fn dev_command_watches_for_changes_and_environments_toml() {
    let watcher = Watcher::new("/ws", vec!["/ws/contracts/hello_world".to_string()]);
    let mut dev = DevLoop::new();

    // Starting dev runs exactly one initial pipeline pass.
    assert_eq!(dev.on_start(), DevAction::RunPipeline);
    assert_eq!(dev.builds, 1);

    // A modification to a watched source file triggers a rebuild.
    let changed = vec!["/ws/contracts/hello_world/src/lib.rs".to_string()];
    let msg = watcher.handle_event(EventKind::Modify, &changed);
    assert_eq!(msg, Some(Message::FileChanged));
    assert_eq!(dev.on_change(true), DevAction::Debounce);
    assert_eq!(dev.on_debounce_elapsed(), DevAction::RunPipeline);
    dev.on_build_finished();
    assert_eq!(dev.builds, 2);

    // The environments file itself is watched; changing its network
    // moves the next pass to the new endpoint.
    assert!(watcher.is_env_toml("/ws/environments.toml"));
    let before = Network {
        name: None,
        rpc_url: Some("http://localhost:8000/rpc".to_string()),
        network_passphrase: Some("P".to_string()),
    };
    let after = Network {
        name: None,
        rpc_url: Some("http://localhost:9000/rpc".to_string()),
        network_passphrase: Some("P".to_string()),
    };
    match add_network_to_env(&before).unwrap() {
        NetworkDirective::Use { log, .. } => {
            assert!(log.contains("🌐 using network at http://localhost:8000/rpc"))
        }
        other => panic!("unexpected directive {:?}", other),
    }
    match add_network_to_env(&after).unwrap() {
        NetworkDirective::Use { log, .. } => {
            assert!(log.contains("🌐 using network at http://localhost:9000/rpc"))
        }
        other => panic!("unexpected directive {:?}", other),
    }

    // The interrupt leaves the loop.
    assert_eq!(dev.on_interrupt(), DevAction::Stop);
    assert!(dev.stopped);
}

#[test]
fn rapid_changes_collapse_into_one_rebuild() {
    let watcher = Watcher::new("/ws", vec!["/ws/pkg".to_string()]);
    let mut dev = DevLoop::new();
    assert_eq!(dev.on_start(), DevAction::RunPipeline);
    assert_eq!(dev.builds, 1);

    // Three rapid modifications within the debounce window: the first
    // starts the window, the other two are dropped, and exactly one
    // rebuild follows.
    let path = "/ws/pkg/src/lib.rs";
    assert!(watcher.is_watched(path));
    assert_eq!(dev.on_change(true), DevAction::Debounce);
    assert_eq!(dev.on_change(true), DevAction::Ignore);
    assert_eq!(dev.on_change(true), DevAction::Ignore);
    assert_eq!(dev.on_debounce_elapsed(), DevAction::RunPipeline);
    dev.on_build_finished();
    assert_eq!(dev.builds, 2);

    // A modification to an ignored file triggers nothing at all.
    let swap = "/ws/pkg/src/.lib.rs.swp";
    assert!(!watcher.is_watched(swap));
    let msg = watcher.handle_event(EventKind::Modify, &vec![swap.to_string()]);
    assert_eq!(msg, None);
    assert_eq!(dev.on_change(false), DevAction::Ignore);
    assert_eq!(dev.builds, 2);
}

#[test]
fn ignore_patterns_cover_editor_and_platform_files() {
    let watcher = Watcher::new("/ws", vec![]);
    for ignored in [
        "/ws/a.swp", "/ws/a.swo", "/ws/a.swx", "/ws/4913", "/ws/.DS_Store", "/ws/Thumbs.db",
        "/ws/a~", "/ws/a.bak", "/ws/.vscode/settings", "/ws/.idea/x", "/ws/a.tmp", "/ws/a.log",
    ] {
        assert!(!watcher.is_watched(ignored), "{ignored} should be ignored");
    }
    assert!(watcher.is_watched("/ws/src/lib.rs"));
    assert!(watcher.is_watched("/ws/environments.toml"));
}

use loam::alias::AliasStore;
use loam::clients::{account_action, default_account, Error, FetchOutcome, LoamEnv};
use loam::env_toml::{Account, AccountRepresentation, Contract};
use loam::runner::{Action, ContractFlow};

fn account(name: &str, default: bool) -> Account {
    Account { name: name.to_string(), default }
}

#[test]
fn create_two_accounts() {
    // First run: neither account exists, so keys are created for both.
    let (log_a, create_a) = account_action("alice", false);
    let (log_b, create_b) = account_action("bob", false);
    assert!(create_a && create_b);
    assert!(log_a.contains("creating keys for \"alice\""));
    assert!(log_b.contains("creating keys for \"bob\""));

    // Second run: both exist, so key creation is skipped.
    let (log_a2, create_a2) = account_action("alice", true);
    let (log_b2, create_b2) = account_action("bob", true);
    assert!(!create_a2 && !create_b2);
    assert!(log_a2.contains("account \"alice\" already exists"));
    assert!(log_b2.contains("account \"bob\" already exists"));
}

#[test]
fn zero_accounts_are_refused() {
    let none: Option<Vec<Account>> = None;
    assert!(matches!(default_account(&none), Err(Error::NeedAtLeastOneAccount)));
    let empty: Option<Vec<Account>> = Some(vec![]);
    assert!(matches!(default_account(&empty), Err(Error::NeedAtLeastOneAccount)));
}

#[test]
fn two_default_accounts_are_refused() {
    let accounts = Some(vec![account("alice", true), account("bob", true)]);
    match default_account(&accounts) {
        Err(Error::OnlyOneDefaultAccount(names)) => {
            assert_eq!(names, vec!["alice".to_string(), "bob".to_string()]);
        }
        other => panic!("expected the default-account conflict, got {:?}", other),
    }
}

#[test]
fn single_unflagged_account_is_implicitly_default() {
    let accounts = Some(vec![account("alice", false)]);
    assert_eq!(default_account(&accounts).unwrap(), "alice");
}

#[test]
fn flagged_account_wins() {
    let accounts = Some(vec![account("alice", false), account("bob", true)]);
    assert_eq!(default_account(&accounts).unwrap(), "bob");
}

#[test]
fn simple_account_representation_is_not_default() {
    let rep = AccountRepresentation::Simple("alice".to_string());
    let a = Account::from(rep);
    assert_eq!(a.name, "alice");
    assert!(!a.default);
    let rep = AccountRepresentation::Detailed(account("bob", true));
    let b = Account::from(rep);
    assert_eq!(b.name, "bob");
    assert!(b.default);
}

#[test]
fn development_run_deploys_then_reports_up_to_date() {
    // The development environment declares alice and bob (bob default),
    // an explicit endpoint, and one client-enabled contract "foo".
    let accounts = Some(vec![account("alice", false), account("bob", true)]);
    assert_eq!(default_account(&accounts).unwrap(), "bob");
    let (log_a, _) = account_action("alice", false);
    let (log_b, _) = account_action("bob", false);
    assert!(log_a.contains("creating keys for \"alice\""));
    assert!(log_b.contains("creating keys for \"bob\""));

    let settings = Contract { client: true, id: None, init: None };
    let mut store = AliasStore::new();

    // First run: foo is installed, deployed, its alias written, and its
    // bindings generated.
    let (mut flow, action) =
        ContractFlow::start("foo", LoamEnv::Development, Some(&settings), "H", "P", &store);
    assert!(matches!(action, Action::Install { .. }));
    let action = flow.on_installed("H");
    assert!(matches!(action, Action::Deploy { .. }));
    let action = flow.on_deployed("ID1", "P", &mut store);
    assert!(matches!(action, Action::Bind { .. }));
    let action = flow.on_bound();
    assert!(matches!(action, Action::WriteImport { .. }));
    let action = flow.on_imported();
    assert!(matches!(action, Action::Finished { id: Some(_) }));
    assert_eq!(store.get("foo", "P").unwrap(), "ID1");

    // Second run with the unchanged artifact: the accounts already
    // exist, foo is up to date, and no install or deploy is requested.
    let (log_a2, create_a2) = account_action("alice", true);
    assert!(!create_a2);
    assert!(log_a2.contains("already exists"));
    let (mut flow2, action2) =
        ContractFlow::start("foo", LoamEnv::Development, Some(&settings), "H", "P", &store);
    assert!(matches!(action2, Action::Fetch { .. }));
    let done = flow2.on_fetched(FetchOutcome::Found("H".to_string()));
    assert!(matches!(done, Action::Finished { .. }));
    assert!(flow2.log.iter().any(|l| l.contains("✅ Contract \"foo\" is up to date")));
    assert!(!flow2.log.iter().any(|l| l.contains("installing")));
    assert!(!flow2.log.iter().any(|l| l.contains("instantiating")));
    assert_eq!(store.get("foo", "P").unwrap(), "ID1");
}

use loam::admin::{admin_key, Admin, IsCore, Kind};
use loam::admin_set as core_admin_set;
use loam::admin_set::IsAdmins as CoreIsAdmins;
use loam::admins::{self, IsAdmins};
use loam::contract_call::{ContractCall, InvokeOutcome};
use loam::owner::{owner_key, IsCoreRiff, Owner};
use loam::soroban::{Address, Symbol, Val};

#[test]
fn admin_slot_holds_one_address() {
    let mut admin = Admin(Kind::Unset);
    assert_eq!(admin.admin_get(), None);
    admin.admin_set(Address(7));
    assert_eq!(admin.admin_get(), Some(Address(7)));
    admin.admin_set(Address(9));
    assert_eq!(admin.admin_get(), Some(Address(9)));
    assert_eq!(admin_key().0, "ADMIN");
}

#[test]
fn owner_slot_holds_one_address() {
    let mut owner = Owner(loam::owner::Kind::Unset);
    assert_eq!(owner.owner_get(), None);
    owner.owner_set(Address(3));
    assert_eq!(owner.owner_get(), Some(Address(3)));
    assert_eq!(owner_key().0, "owner");
}

#[test]
fn core_admin_set_initializes_once_then_guards_changes() {
    let mut set = core_admin_set::AdminSet(vec![]);
    set.admins_init(vec![Address(1), Address(2), Address(1)]);
    assert!(set.admins_contains(Address(1)));
    assert!(set.admins_contains(Address(2)));
    assert!(!set.admins_contains(Address(3)));
    // A majority of the current admins adds a member.
    set.admins_set(vec![Address(1)], Address(3));
    assert!(set.admins_contains(Address(3)));
}

#[test]
fn guarded_admin_set_invokes_through_majority() {
    let mut set = admins::AdminSet(vec![]);
    set.admins_init(vec![Address(1), Address(2)]);
    set.admins_approve(&vec![Address(1)]);
    set.admins_set(vec![Address(1)], Address(3));
    assert!(set.admins_contains(Address(3)));
    let call = (
        None,
        Symbol("transfer".to_string()),
        vec![Val(1), Val(2)],
    );
    let outcome = InvokeOutcome::Success(Val(42));
    let r = set.admins_invoke(&vec![Address(1), Address(2)], call, Address(99), &outcome);
    assert_eq!(r, Val(42));
}

#[test]
fn try_invoke_hands_failures_through() {
    let call = ContractCall::from_parts(
        (Some(Address(5)), Symbol("f".to_string()), vec![]),
        Address(1),
    );
    assert_eq!(call.contract_address, Address(5));
    assert_eq!(call.try_invoke(&InvokeOutcome::Success(Val(7))), Ok(Val(7)));
    let call = ContractCall::from_parts((None, Symbol("f".to_string()), vec![]), Address(1));
    assert_eq!(call.contract_address, Address(1));
    assert_eq!(
        call.try_invoke(&InvokeOutcome::ContractError),
        Err(admins::Error::InvokeFailed)
    );
}

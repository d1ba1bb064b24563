//! The multi-administrator subcontract: an administrator set whose every
//! change and every guarded invocation needs a majority of the current
//! administrators, each of them signing.

use vstd::prelude::*;
use crate::soroban::{Address, Symbol, Val};
use crate::contract_call::{ContractCall, InvokeOutcome};
use crate::admin_set::{addr_list_contains, addrs_wf, insert_unique_all};

verus! {

/// What the administrator operations refuse.
#[derive(Debug, Clone, Copy, PartialEq, Eq, Structural)]
pub enum Error {
    /// Not enough signatures.
    NonEnoughSignatures,
    /// Account is not admin.
    AccountIsNotAdmin,
    /// Already initialized.
    AlreadyInitialized,
    /// Need at least one initial admin address.
    NoInitialAdmin,
    /// Contract address is incorrect.
    IncorrectContractAddress,
    /// Contract method name is incorrect.
    IncorrectContractMethodName,
    /// Contract method args are incorrect.
    IncorrectArgs,
    /// Invoke failed.
    InvokeFailed,
    /// Contract not initialized.
    Uninitialized,
}

/// The administrator set, as a duplicate-free list of addresses.
#[derive(Debug)]
pub struct AdminSet(pub Vec<Address>);

impl Default for AdminSet {
    /// The uninitialized set: no administrators at all.
    fn default() -> (r: AdminSet)
        ensures
            addrs_wf(r.0@),
            r.0@.len() == 0,
    {
        AdminSet(Vec::new())
    }
}

/// A majority of the current administrators, each of them one: what every
/// guarded operation demands of the signers the host authenticated.
pub open spec fn approved(current: Set<Address>, admins: Seq<Address>) -> bool {
    &&& !(current =~= Set::<Address>::empty())
    &&& admins.len() >= current.len() / 2
    &&& forall|t: int| 0 <= t < admins.len() ==> current.contains(#[trigger] admins[t])
}

pub trait IsAdmins {
    /// The current administrators.
    spec fn admins_view(&self) -> Set<Address>;

    /// Whether the set is duplicate-free.
    spec fn admins_wf(&self) -> bool;

    /// Initialize the admins; only once, and with at least one of them.
    fn admins_init(&mut self, admins: Vec<Address>)
        requires
            old(self).admins_wf(),
            old(self).admins_view() =~= Set::<Address>::empty(),
            admins@.len() > 0,
        ensures
            final(self).admins_wf(),
            forall|a: Address| final(self).admins_view().contains(a) <==> admins@.contains(a),
    ;

    /// Add a member, with a majority of the current admins signing.
    fn admins_set(&mut self, admins: Vec<Address>, new_member: Address)
        requires
            old(self).admins_wf(),
            approved(old(self).admins_view(), admins@),
        ensures
            final(self).admins_wf(),
            final(self).admins_view() =~= old(self).admins_view().insert(new_member),
    ;

    /// Assert that the provided admins are a majority of the current
    /// admins; their signatures are the host's check.
    fn admins_approve(&self, admins: &Vec<Address>)
        requires
            self.admins_wf(),
            approved(self.admins_view(), admins@),
    ;

    /// Whether the given address is an administrator.
    fn admins_contains(&self, member: Address) -> (r: bool)
        requires
            self.admins_wf(),
        ensures
            r == self.admins_view().contains(member),
    ;

    /// With a majority of the admins signing, interpret the host's reply
    /// to the guarded contract call; the call must have succeeded.
    fn admins_invoke(
        &self,
        admins: &Vec<Address>,
        contract_call: (Option<Address>, Symbol, Vec<Val>),
        current: Address,
        outcome: &InvokeOutcome,
    ) -> (r: Val)
        requires
            self.admins_wf(),
            approved(self.admins_view(), admins@),
            *outcome is Success,
        ensures
            *outcome matches InvokeOutcome::Success(v) ==> r == v,
    ;
}

impl IsAdmins for AdminSet {
    open spec fn admins_view(&self) -> Set<Address> {
        self.0@.to_set()
    }

    open spec fn admins_wf(&self) -> bool {
        addrs_wf(self.0@)
    }

    fn admins_init(&mut self, admins: Vec<Address>) {
        insert_unique_all(&mut self.0, &admins);
        proof {
            assert forall|a: Address|
                final(self).admins_view().contains(a) <==> admins@.contains(a) by {
                assert(self.0@.contains(a) == self.0@.to_set().contains(a));
                if old(self).0@.contains(a) {
                    assert(old(self).0@.to_set().contains(a));
                }
            }
        }
    }

    fn admins_set(&mut self, admins: Vec<Address>, new_member: Address) {
        self.admins_approve(&admins);
        let ghost pre = self.0@;
        if !addr_list_contains(&self.0, new_member) {
            self.0.push(new_member);
            proof {
                assert(self.0@ == pre.push(new_member));
                assert(self.0@.drop_last() =~= pre);
                assert(addrs_wf(self.0@)) by {
                    assert forall|x: int, y: int|
                        0 <= x < y < self.0@.len() implies self.0@[x] != self.0@[y] by {
                        if y == self.0@.len() - 1 {
                            assert(pre.contains(pre[x]));
                        }
                    }
                }
                pre.lemma_push_to_set_commute(new_member);
            }
        } else {
            proof {
                assert(pre.contains(new_member) == pre.to_set().contains(new_member));
                assert(self.0@.to_set() =~= pre.to_set().insert(new_member));
            }
        }
    }

    fn admins_approve(&self, admins: &Vec<Address>) {
        // The majority and membership demands stand in the contract; the
        // signature check on each admin is the host's work.
    }

    fn admins_contains(&self, member: Address) -> (r: bool) {
        let r = addr_list_contains(&self.0, member);
        proof {
            assert(self.0@.contains(member) == self.0@.to_set().contains(member));
        }
        r
    }

    fn admins_invoke(
        &self,
        admins: &Vec<Address>,
        contract_call: (Option<Address>, Symbol, Vec<Val>),
        current: Address,
        outcome: &InvokeOutcome,
    ) -> (r: Val) {
        self.admins_approve(admins);
        let call = ContractCall::from_parts(contract_call, current);
        match call.try_invoke(outcome) {
            Ok(v) => v,
            Err(_) => {
                proof {
                    assert(false);
                }
                Val(0)
            },
        }
    }
}

} // verus!

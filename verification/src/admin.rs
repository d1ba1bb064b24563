//! The contract core's administrator slot: who may reconfigure and
//! redeploy the contract.

use vstd::prelude::*;
use crate::soroban::{Address, Symbol};

verus! {

/// The administrator slot; empty until one is set.
#[derive(Debug, Clone, Copy, PartialEq, Eq, Structural)]
pub struct Admin(pub Kind);

/// An optional address, as the storage encoding represents it.
#[derive(Debug, Clone, Copy, PartialEq, Eq, Structural)]
pub enum Kind {
    Address(Address),
    Unset,
}

/// The storage key the administrator slot lives under.
pub fn admin_key() -> (r: Symbol)
    ensures
        r.0@ == "ADMIN"@,
{
    Symbol(String::from_str("ADMIN"))
}

pub trait IsCore {
    /// The administrator, if one is set.
    spec fn admin_view(&self) -> Option<Address>;

    /// Get the current admin.
    fn admin_get(&self) -> (r: Option<Address>)
        ensures
            r == self.admin_view(),
    ;

    /// Transfer to a new admin; the host checks the current admin's
    /// authorization.
    fn admin_set(&mut self, new_admin: Address)
        ensures
            final(self).admin_view() == Option::Some(new_admin),
    ;

    /// Redeploy the contract's code to the given hash; only an admin may,
    /// so one must be set. The code swap itself is the host's effect.
    fn redeploy(&self, wasm_hash: &Vec<u8>)
        requires
            self.admin_view() is Some,
    ;
}

impl IsCore for Admin {
    open spec fn admin_view(&self) -> Option<Address> {
        match self.0 {
            Kind::Address(a) => Option::Some(a),
            Kind::Unset => Option::None,
        }
    }

    fn admin_get(&self) -> (r: Option<Address>) {
        match self.0 {
            Kind::Address(a) => Some(a),
            Kind::Unset => None,
        }
    }

    fn admin_set(&mut self, new_admin: Address) {
        self.0 = Kind::Address(new_admin);
    }

    fn redeploy(&self, wasm_hash: &Vec<u8>) {
        // The authorization check and the code swap are the host's work;
        // the model only demands that an administrator exists.
    }
}

} // verus!

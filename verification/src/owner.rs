//! The contract core's owner slot: who owns the contract and may
//! redeploy it.

use vstd::prelude::*;
use crate::soroban::{Address, Symbol};

verus! {

/// The owner slot; empty until ownership is claimed.
#[derive(Debug, Clone, Copy, PartialEq, Eq, Structural)]
pub struct Owner(pub Kind);

/// An optional address, as the storage encoding represents it.
#[derive(Debug, Clone, Copy, PartialEq, Eq, Structural)]
pub enum Kind {
    Address(Address),
    Unset,
}

/// The storage key the owner slot lives under.
pub fn owner_key() -> (r: Symbol)
    ensures
        r.0@ == "owner"@,
{
    Symbol(String::from_str("owner"))
}

pub trait IsCoreRiff {
    /// The owner, if one is set.
    spec fn owner_view(&self) -> Option<Address>;

    /// Get the current owner.
    fn owner_get(&self) -> (r: Option<Address>)
        ensures
            r == self.owner_view(),
    ;

    /// Transfer ownership; the host checks the current owner's
    /// authorization when one is already set.
    fn owner_set(&mut self, new_owner: Address)
        ensures
            final(self).owner_view() == Option::Some(new_owner),
    ;

    /// Redeploy the contract's code to the given hash; only the owner
    /// may, so one must be set. The code swap itself is the host's effect.
    fn redeploy(&self, wasm_hash: &Vec<u8>)
        requires
            self.owner_view() is Some,
    ;
}

impl IsCoreRiff for Owner {
    open spec fn owner_view(&self) -> Option<Address> {
        match self.0 {
            Kind::Address(a) => Option::Some(a),
            Kind::Unset => Option::None,
        }
    }

    fn owner_get(&self) -> (r: Option<Address>) {
        match self.0 {
            Kind::Address(a) => Some(a),
            Kind::Unset => None,
        }
    }

    fn owner_set(&mut self, new_owner: Address) {
        self.0 = Kind::Address(new_owner);
    }

    fn redeploy(&self, wasm_hash: &Vec<u8>) {
        // The authorization check and the code swap are the host's work;
        // the model only demands that an owner exists.
    }
}

} // verus!

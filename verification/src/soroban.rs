//! The model of the host types the contract core works with: addresses
//! and host values as plain identities, short symbols as text, and the
//! storage traits contracts implement.

use vstd::prelude::*;

verus! {

/// An on-network address, modelled by its numeric identity.
#[derive(Clone, Copy, Debug, PartialEq, Eq, Structural)]
pub struct Address(pub u64);

/// A host value handed through contract calls, modelled by its identity.
#[derive(Clone, Copy, Debug, PartialEq, Eq, Structural)]
pub struct Val(pub u64);

/// A short symbol key, modelled by its text.
#[derive(Debug, Clone)]
pub struct Symbol(pub String);

/// A singleton state type that can be loaded from and stored to the
/// contract instance's storage. The host performs the load and store;
/// contracts implement this to name their slot.
pub trait Lazy: Sized {
    fn get_lazy() -> Option<Self>;

    fn set_lazy(self);
}

/// Names the storage key a state type lives under.
pub trait IntoKey {
    type Key;

    fn into_key() -> Self::Key;
}

} // verus!

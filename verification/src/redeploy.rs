//! Redeployability: a contract whose code its owner may swap for a new
//! hash. The swap itself is the host's effect.

use vstd::prelude::*;

verus! {

/// Implemented by contracts whose deployed code may be replaced.
pub trait Redeployable {
    fn redeploy(&self, wasm_hash: &Vec<u8>);
}

} // verus!

//! A cross-contract call: the target address, the function symbol and the
//! arguments, and what becomes of the host's reply.

use vstd::prelude::*;
use crate::soroban::{Address, Symbol, Val};
use crate::admins::Error;

verus! {

/// How the host answered an invocation.
#[derive(Debug, Clone, Copy, PartialEq, Eq, Structural)]
pub enum InvokeOutcome {
    /// The call returned this value.
    Success(Val),
    /// The called contract failed.
    ContractError,
    /// The host refused the call.
    HostError,
}

/// One prepared cross-contract call.
#[derive(Debug)]
pub struct ContractCall {
    pub contract_address: Address,
    pub func: Symbol,
    pub args: Vec<Val>,
}

impl ContractCall {
    /// Builds a call from its parts; a missing target address means the
    /// current contract, which the host reports and is passed in here.
    pub fn from_parts(parts: (Option<Address>, Symbol, Vec<Val>), current: Address) -> (r:
        ContractCall)
        ensures
            r.contract_address == if parts.0 is Some {
                parts.0->0
            } else {
                current
            },
            r.func.0@ == parts.1.0@,
            r.args@ == parts.2@,
    {
        let (contract_address, func, args) = parts;
        let contract_address = match contract_address {
            Some(a) => a,
            None => current,
        };
        ContractCall { contract_address, func, args }
    }

    /// Interprets the host's reply to this call: a returned value is
    /// handed through, and any failure — the contract's or the host's —
    /// is one invocation error.
    pub fn try_invoke(self, outcome: &InvokeOutcome) -> (r: Result<Val, Error>)
        ensures
            match *outcome {
                InvokeOutcome::Success(v) => r == Result::<Val, Error>::Ok(v),
                InvokeOutcome::ContractError => r == Result::<Val, Error>::Err(
                    Error::InvokeFailed,
                ),
                InvokeOutcome::HostError => r == Result::<Val, Error>::Err(Error::InvokeFailed),
            },
    {
        match outcome {
            InvokeOutcome::Success(v) => Ok(*v),
            InvokeOutcome::ContractError => Err(Error::InvokeFailed),
            InvokeOutcome::HostError => Err(Error::InvokeFailed),
        }
    }
}

} // verus!

//! The fungible-token subcontract interfaces: the standard token
//! interface, its administrative extension, and initialization.
//! Implementations are the contracts' own.

use vstd::prelude::*;
use crate::soroban::Address;

verus! {

/// The standard fungible-token interface: allowances, balances,
/// transfers, burns, and token metadata.
pub trait IsSep41 {
    /// Returns the allowance for `spender` to transfer from `from`.
    fn allowance(&self, from: Address, spender: Address) -> i128;

    /// Set the allowance by `amount` for `spender` to transfer/burn from
    /// `from`.
    fn approve(&mut self, from: Address, spender: Address, amount: i128, live_until_ledger: u32);

    /// Returns the balance of `id`.
    fn balance(&self, id: Address) -> i128;

    /// Transfer `amount` from `from` to `to`.
    fn transfer(&mut self, from: Address, to: Address, amount: i128);

    /// Transfer `amount` from `from` to `to`, consuming the allowance of
    /// `spender`.
    fn transfer_from(&mut self, spender: Address, from: Address, to: Address, amount: i128);

    /// Burn `amount` from `from`.
    fn burn(&mut self, from: Address, amount: i128);

    /// Burn `amount` from `from`, consuming the allowance of `spender`.
    fn burn_from(&mut self, spender: Address, from: Address, amount: i128);

    /// Returns the number of decimals used to represent amounts of this
    /// token.
    fn decimals(&self) -> u32;

    /// Returns the name for this token.
    fn name(&self) -> String;

    /// Returns the symbol for this token.
    fn symbol(&self) -> String;
}

/// The administrative extension of the token interface.
pub trait IsFungible: IsSep41 {
    /// Increases the allowance one address can spend on behalf of
    /// another.
    fn increase_allowance(&mut self, from: Address, spender: Address, amount: i128);

    /// Decreases the allowance one address can spend on behalf of
    /// another.
    fn decrease_allowance(&mut self, from: Address, spender: Address, amount: i128);

    /// Returns the spendable balance of tokens for a specific address.
    fn spendable_balance(&self, id: Address) -> i128;

    /// Checks if a specific address is authorized.
    fn authorized(&self, id: Address) -> bool;

    /// Sets the authorization status of a specific address.
    fn set_authorized(&mut self, id: Address, authorize: bool);

    /// Mints a specified amount of tokens to a specific address.
    fn mint(&mut self, to: Address, amount: i128);

    /// Retrieves a specified amount of tokens from a specific address
    /// (clawback).
    fn clawback(&mut self, from: Address, amount: i128);

    /// Sets a new admin address.
    fn set_admin(&mut self, new_admin: Address);
}

/// Initialization of the token subcontract.
pub trait IsInitable {
    /// Initialize the token subcontract.
    fn ft_init(&mut self, admin: Address, name: String, symbol: String, decimals: u32);
}

} // verus!

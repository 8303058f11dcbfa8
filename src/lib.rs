//! Escrow vouchers: a payer reserves funds of one currency, and the funds
//! are later paid out to an authorised merchant by the designated redeemer,
//! in full or in part, or released back to the payer on cancellation.
pub mod ledger;
pub mod pallet;

use vstd::prelude::*;

verus! {

/// Identifies an account.
pub type AccountId = u64;

/// Identifies a fungible currency.
pub type CurrencyId = u32;

/// A quantity of some currency.
pub type Balance = u128;

/// Identifies a voucher.
pub type VoucherId = u64;

} // verus!

//! An entity registry with ownership, a marketplace and schema-versioned
//! record migration.
//!
//! Entities ("kitties") carry a 16-byte genetic payload and an 8-byte name.
//! They are created from a random seed or bred from two parents by a bitwise
//! crossover, owned by accounts, listed for sale and bought.  Stored records
//! are migrated forward between binary layouts.  A separate store records
//! proofs of existence: byte strings claimed by accounts.
use vstd::prelude::*;

pub mod dna;
pub mod scale;
pub mod pallet;
pub mod migrations;
pub mod poe;

verus! {

/// Identifier of an entity in the registry.
pub type KittyId = u32;

/// An account of the host ledger.
pub type AccountId = u64;

/// An amount of the host ledger's currency.
pub type Balance = u128;

} // verus!

//! A registry of unique non-fungible tokens ("kitties") with bounded per-account
//! holdings and a marketplace, together with a small greeting-quota module.
pub mod dna;
pub mod greeter;
pub mod ledger;
pub mod registry;

pub use dna::{gen_dna, gender_from_dna};
pub use ledger::{Balances, Ledger, LedgerError};
pub use registry::{AccountId, Balance, Dna, Error, Event, Gender, Kitty, Pallet};

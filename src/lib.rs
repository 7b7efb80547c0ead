//! Kitties: a registry of creatures owned by accounts, each bound to a
//! sixteen-byte genome. New kitties are created from hashed seed material or
//! bred from two kitties of opposite gender.
pub mod dna;
pub mod kitty;
pub mod registry;

pub use dna::random_dna;
pub use kitty::{mix_dna, Kitty, KittyGender};
pub use registry::{AccountId, Error, KittyId, KittyRegistry};

//! A verified model of an NFT rental marketplace.
//!
//! Sellers escrow a unique asset into a program-controlled vault and list it
//! for time-bounded rental at a fixed price; a marketplace administrator
//! gates which asset collections may be listed by maintaining a whitelist.
//! The host ledger's record addressing is modelled as explicit keyed tables,
//! and the external asset-transfer capability as explicit balance moves, so
//! that the authorization gate, the escrow custody rules and the listing
//! lifecycle are all stated and proved here.

pub mod error;
pub mod laws;
pub mod market;
pub mod model;
pub mod state;

//! Linkable ring signatures over a prime-order group, with a key-image
//! registry for double-spend detection and a transaction record that binds
//! an amount and a ring to one signature.

pub mod encoding;
pub mod error;
pub mod group;
pub mod hash;
pub mod keys;
pub mod point;
pub mod registry;
pub mod ring;
pub mod scalar;
pub mod transaction;
pub mod wire;

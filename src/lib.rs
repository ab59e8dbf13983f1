//! A publish/subscribe channel protocol over an append-only message ledger.
//!
//! An author announces a channel, grants subscribers access through keyload
//! messages and publishes signed or tagged packets; subscribers connect, take
//! keyloads and walk the chain of packets, reading the masked half of a packet
//! only where the keyload in effect at that point of the chain granted them.
use vstd::prelude::*;

pub mod link;
pub mod channel_author;
pub mod channel_subscriber;
pub mod ledger;
pub mod payload;

verus! {

} // verus!

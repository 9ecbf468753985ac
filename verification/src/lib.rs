//! Lynk: a generalized libp2p network.
//!
//! The verified part of the peer network: topic naming, message identifiers, the
//! gossipsub subscription bookkeeping, the dispatch of received messages along a
//! chain of message gates, and the decisions that the network task takes on each
//! command and gossip message.
use vstd::prelude::*;

pub mod encoding;
pub mod engine;
pub mod gates;
pub mod gossip;
pub mod identity;
pub mod messages;
pub mod network;
pub mod peer;
pub mod text;
pub mod utilities;

verus! {

/// The public address of a peer: the 32 bytes of its Ed25519 public key.
pub type PublicAddress = [u8; 32];

} // verus!

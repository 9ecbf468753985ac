//! The information that identifies a peer in the network.
use vstd::prelude::*;

use crate::identity::{ed25519_key_valid, ed25519_peer_id, peer_id_of_address};
use crate::PublicAddress;

verus! {

/// Peer consists of required information to identify an entity in the network, such as
/// Peer Id, IPv4 Address and port number.
#[derive(Clone, Debug)]
pub struct Peer {
    /// Peer id in the p2p network, in its binary form
    pub peer_id: Vec<u8>,
    /// IP address (v4) of connection
    pub ip_address: [u8; 4],
    /// port number of connection
    pub port: u16,
}

impl Peer {
    /// Instantiation of a peer from its public address, IP address and port.
    ///
    /// The address must be a valid Ed25519 public key.
    pub fn new(address: PublicAddress, ip_address: [u8; 4], port: u16) -> (peer: Peer)
        requires
            ed25519_key_valid(address@),
        ensures
            peer.peer_id@ == ed25519_peer_id(address@),
            peer.ip_address == ip_address,
            peer.port == port,
    {
        let peer_id = peer_id_of_address(&address);
        match peer_id {
            Some(peer_id) => Peer { peer_id, ip_address, port },
            None => {
                proof {
                    assert(false);
                }
                Peer { peer_id: Vec::new(), ip_address, port }
            },
        }
    }

    /// The peer of the given public address, IP address and port, or None where the
    /// address is not a valid Ed25519 public key.
    pub fn try_new(address: PublicAddress, ip_address: [u8; 4], port: u16) -> (peer: Option<Peer>)
        ensures
            peer is Some <==> ed25519_key_valid(address@),
            peer matches Some(p) ==> p.peer_id@ == ed25519_peer_id(address@) && p.ip_address
                == ip_address && p.port == port,
    {
        if peer_id_of_address(&address).is_some() {
            Some(Peer::new(address, ip_address, port))
        } else {
            None
        }
    }
}

} // verus!

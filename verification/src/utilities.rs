//! Multiaddresses of TCP endpoints over IPv4.
use vstd::prelude::*;
use vstd::string::*;

use crate::text::{decimal, push_decimal};

pub use crate::identity::public_address;

verus! {

/// The text form of the multiaddress of TCP port `port` at the IPv4 address `ip`:
/// `/ip4/a.b.c.d/tcp/port`, each number in decimal.
pub open spec fn ip4_tcp_text(ip: Seq<u8>, port: u16) -> Seq<char> {
    "/ip4/"@ + decimal(ip[0] as nat) + "."@ + decimal(ip[1] as nat) + "."@ + decimal(
        ip[2] as nat,
    ) + "."@ + decimal(ip[3] as nat) + "/tcp/"@ + decimal(port as nat)
}

/// The binary form of the same multiaddress: protocol code 4 (ip4) and the four address
/// bytes, then protocol code 6 (tcp) and the port in big-endian order.
pub open spec fn ip4_tcp_bytes(ip: Seq<u8>, port: u16) -> Seq<u8> {
    seq![4u8] + ip + seq![6u8, (port / 256) as u8, (port % 256) as u8]
}

/// What parsing `text` as a `libp2p::Multiaddr` yields: the multiaddress's bytes, or
/// nothing where the text is not a multiaddress.
pub uninterp spec fn multiaddr_of_text(text: Seq<char>) -> Option<Seq<u8>>;

/// Calls `str::parse::<libp2p::Multiaddr>` and `Multiaddr::to_vec`. Trusted to return
/// `multiaddr_of_text`, and, for the text of an ip4 address and a tcp port, the bytes that
/// the crate's source writes for those two protocols (`Protocol::write_bytes`).
#[verifier::external_body]
fn parse_multiaddr(text: &str) -> (bytes: Option<Vec<u8>>)
    ensures
        match bytes {
            Some(b) => multiaddr_of_text(text@) == Some(b@),
            None => multiaddr_of_text(text@) is None,
        },
        forall|ip: Seq<u8>, port: u16|
            ip.len() == 4 && text@ == #[trigger] ip4_tcp_text(ip, port) ==> bytes is Some
                && bytes.unwrap()@ == ip4_tcp_bytes(ip, port),
{
    text.parse::<libp2p::Multiaddr>().ok().map(|m| m.to_vec())
}

/// The text form of the multiaddress of an IPv4 address and a TCP port number.
pub fn multiaddr_text(ip_address: [u8; 4], port: u16) -> (text: String)
    ensures
        text@ == ip4_tcp_text(ip_address@, port),
{
    let mut text = String::new();
    proof {
        reveal_strlit("/ip4/");
        reveal_strlit(".");
        reveal_strlit("/tcp/");
    }
    text.append("/ip4/");
    push_decimal(&mut text, ip_address[0] as u64);
    text.append(".");
    push_decimal(&mut text, ip_address[1] as u64);
    text.append(".");
    push_decimal(&mut text, ip_address[2] as u64);
    text.append(".");
    push_decimal(&mut text, ip_address[3] as u64);
    text.append("/tcp/");
    push_decimal(&mut text, port as u64);
    text
}

/// Create the multiaddress (in its binary form) of an IP address and port number.
pub fn multiaddr(ip_address: [u8; 4], port: u16) -> (address: Vec<u8>)
    ensures
        address@ == ip4_tcp_bytes(ip_address@, port),
{
    let text = multiaddr_text(ip_address, port);
    let parsed = parse_multiaddr(text.as_str());
    assert(text@ == ip4_tcp_text(ip_address@, port));
    match parsed {
        Some(bytes) => bytes,
        None => {
            proof {
                assert(false);
            }
            Vec::new()
        },
    }
}

} // verus!

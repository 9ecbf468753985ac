//! Ed25519 public keys, their protobuf encoding and the peer ids derived from them.
use vstd::prelude::*;
use vstd::slice::slice_subrange;

use crate::PublicAddress;

verus! {

/// Whether `ed25519::PublicKey::try_from_bytes` of libp2p accepts the 32 bytes `key`,
/// that is, whether they encode a point of the curve.
pub uninterp spec fn ed25519_key_valid(key: Seq<u8>) -> bool;

/// What `PublicKey::try_decode_protobuf` of libp2p followed by `try_into_ed25519` yields
/// for `encoded`: the bytes of the Ed25519 key it encodes, or nothing.
pub uninterp spec fn protobuf_ed25519_key(encoded: Seq<u8>) -> Option<Seq<u8>>;

/// The protobuf encoding of the Ed25519 public key `key`: field 1 (key type) is 1
/// (Ed25519), field 2 (data) holds the 32 key bytes.
pub open spec fn ed25519_protobuf(key: Seq<u8>) -> Seq<u8> {
    seq![8u8, 1u8, 18u8, 32u8] + key
}

/// The bytes of the peer id of the Ed25519 public key `key`: the identity multihash
/// (code 0, length 36) of its protobuf encoding.
pub open spec fn ed25519_peer_id(key: Seq<u8>) -> Seq<u8> {
    seq![0u8, 36u8] + ed25519_protobuf(key)
}

/// Whether `encoded` is the protobuf encoding of some 32-byte Ed25519 key.
pub open spec fn is_ed25519_protobuf(encoded: Seq<u8>) -> bool {
    encoded.len() == 36 && encoded.take(4) == seq![8u8, 1u8, 18u8, 32u8]
}

/// Whether `encoded` is the short protobuf encoding of a public key: field 1 (the key
/// type) with a one-byte value, then field 2 (the key data) with a one-byte length that
/// the rest of the bytes fill.
pub open spec fn is_short_key_protobuf(encoded: Seq<u8>) -> bool {
    &&& encoded.len() >= 4
    &&& encoded[0] == 8
    &&& encoded[1] < 128
    &&& encoded[2] == 18
    &&& encoded[3] < 128
    &&& encoded[3] + 4 == encoded.len()
}

/// The Ed25519 key that a protobuf-encoded public key decodes to. For a short encoding,
/// that is the key data where the key type is Ed25519 (1), the data is 32 bytes long and
/// is a valid key; nothing for any other key type, or other data.
pub open spec fn decoded_ed25519_key(encoded: Seq<u8>) -> Option<Seq<u8>> {
    if is_short_key_protobuf(encoded) {
        if encoded[1] == 1 && encoded.len() == 36 && ed25519_key_valid(encoded.skip(4)) {
            Some(encoded.skip(4))
        } else {
            None
        }
    } else {
        protobuf_ed25519_key(encoded)
    }
}

/// Calls `PublicKey::try_decode_protobuf`, then `try_into_ed25519` and `to_bytes` of
/// libp2p. Trusted to return `decoded_ed25519_key`: for a short encoding the crate's source
/// decodes the key type (an unknown type is an error, another known type is not Ed25519)
/// and, for Ed25519, field 2 with `ed25519::PublicKey::try_from_bytes`, which takes exactly
/// 32 bytes that encode a point and gives them back with `to_bytes`; for other inputs the
/// result is only named, and is a valid key where there is one.
#[verifier::external_body]
fn decode_ed25519_key(encoded: &[u8]) -> (key: Option<[u8; 32]>)
    ensures
        is_short_key_protobuf(encoded@) ==> match key {
            Some(k) => encoded@[1] == 1 && encoded@.len() == 36 && ed25519_key_valid(
                encoded@.skip(4),
            ) && k@ == encoded@.skip(4),
            None => !(encoded@[1] == 1 && encoded@.len() == 36 && ed25519_key_valid(
                encoded@.skip(4),
            )),
        },
        !is_short_key_protobuf(encoded@) ==> match key {
            Some(k) => protobuf_ed25519_key(encoded@) == Some(k@) && ed25519_key_valid(k@),
            None => protobuf_ed25519_key(encoded@) is None,
        },
{
    let public_key = libp2p::identity::PublicKey::try_decode_protobuf(encoded).ok()?;
    public_key.try_into_ed25519().ok().map(|k| k.to_bytes())
}

/// Calls `ed25519::PublicKey::try_from_bytes`, then `PublicKey::from`, `to_peer_id` and
/// `PeerId::to_bytes` of libp2p. Trusted to succeed exactly on valid keys, and to return
/// the identity multihash of the key's protobuf encoding, as `PeerId::from_public_key`
/// does for encodings of at most 42 bytes.
#[verifier::external_body]
fn peer_id_of_ed25519_key(key: &[u8; 32]) -> (id: Option<Vec<u8>>)
    ensures
        id is Some <==> ed25519_key_valid(key@),
        id matches Some(b) ==> b@ == ed25519_peer_id(key@),
{
    let public_key = libp2p::identity::ed25519::PublicKey::try_from_bytes(key).ok()?;
    Some(libp2p::identity::PublicKey::from(public_key).to_peer_id().to_bytes())
}

/// The public address of a peer from its protobuf-encoded public key. The key must be an
/// Ed25519 key, otherwise the function returns None.
pub fn public_address(encoded_public_key: &[u8]) -> (address: Option<PublicAddress>)
    ensures
        match address {
            Some(a) => decoded_ed25519_key(encoded_public_key@) == Some(a@) && ed25519_key_valid(
                a@,
            ),
            None => decoded_ed25519_key(encoded_public_key@) is None,
        },
{
    decode_ed25519_key(encoded_public_key)
}

/// The public address held in a peer id: the bytes of a peer id that embeds its public
/// key (an identity multihash, code 0) are the length of that key's protobuf encoding
/// and the encoding itself.
pub open spec fn address_of_peer_id(peer_id: Seq<u8>) -> Option<Seq<u8>> {
    if peer_id.len() >= 2 && peer_id[0] == 0 && peer_id[1] + 2 == peer_id.len() {
        decoded_ed25519_key(peer_id.skip(2))
    } else {
        None
    }
}

/// The public address of the peer with the given peer id bytes, where the peer id embeds
/// an Ed25519 public key; None otherwise.
pub fn public_address_of_peer(peer_id: &[u8]) -> (address: Option<PublicAddress>)
    ensures
        match address {
            Some(a) => address_of_peer_id(peer_id@) == Some(a@),
            None => address_of_peer_id(peer_id@) is None,
        },
{
    let len = peer_id.len();
    if len >= 2 && peer_id[0] == 0 && peer_id[1] as usize + 2 == len {
        let encoded = slice_subrange(peer_id, 2, len);
        assert(encoded@ == peer_id@.skip(2));
        public_address(encoded)
    } else {
        None
    }
}

/// The peer id bytes of the peer with the given public address, where the address is a
/// valid Ed25519 key; None otherwise.
pub fn peer_id_of_address(address: &PublicAddress) -> (peer_id: Option<Vec<u8>>)
    ensures
        peer_id is Some <==> ed25519_key_valid(address@),
        peer_id matches Some(b) ==> b@ == ed25519_peer_id(address@),
{
    peer_id_of_ed25519_key(address)
}

/// The public address of a peer is what its peer id gives back: for every valid Ed25519
/// key, the address held in the key's peer id is the key itself.
pub proof fn lemma_peer_id_holds_address(key: Seq<u8>)
    requires
        key.len() == 32,
        ed25519_key_valid(key),
    ensures
        address_of_peer_id(ed25519_peer_id(key)) == Some(key),
{
    let id = ed25519_peer_id(key);
    assert(id.skip(2) =~= ed25519_protobuf(key));
    assert(ed25519_protobuf(key).take(4) =~= seq![8u8, 1u8, 18u8, 32u8]);
    assert(ed25519_protobuf(key).skip(4) =~= key);
}

/// The identity of the local peer: its public address and its peer id.
pub struct LocalIdentity {
    pub address: PublicAddress,
    pub peer_id: Vec<u8>,
}

/// The public address and the peer id of the local peer, from the protobuf encoding of
/// its public key: there is one exactly where the key is an Ed25519 key.
pub fn local_identity(encoded_public_key: &[u8]) -> (identity: Option<LocalIdentity>)
    ensures
        identity is Some <==> decoded_ed25519_key(encoded_public_key@) is Some,
        identity matches Some(id) ==> decoded_ed25519_key(encoded_public_key@) == Some(
            id.address@,
        ) && id.peer_id@ == ed25519_peer_id(id.address@),
{
    match public_address(encoded_public_key) {
        Some(address) => match peer_id_of_address(&address) {
            Some(peer_id) => Some(LocalIdentity { address, peer_id }),
            None => {
                proof {
                    assert(false);
                }
                None
            },
        },
        None => None,
    }
}

/// A peer built from the public address of the local identity names the local peer: the
/// peer id derived from the address (by `Peer::new`, `peer_id_of_address` or
/// `behaviour_config`) is the peer id of the local identity (`local_identity`), and it
/// gives the address back.
pub proof fn lemma_address_names_key_owner(address: Seq<u8>, owner_peer_id: Seq<u8>, derived: Seq<u8>)
    requires
        address.len() == 32,
        ed25519_key_valid(address),
        owner_peer_id == ed25519_peer_id(address),
        derived == ed25519_peer_id(address),
    ensures
        derived == owner_peer_id,
        address_of_peer_id(derived) == Some(address),
{
    lemma_peer_id_holds_address(address);
}

} // verus!

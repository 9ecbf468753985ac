use libp2p::identity::{ed25519, Keypair, PublicKey};
use lynk::engine::{behaviour_config, try_behaviour_config};
use lynk::identity::{local_identity, peer_id_of_address, public_address_of_peer};
use lynk::peer::Peer;
use lynk::utilities::{multiaddr, multiaddr_text, public_address};

fn ed25519_address() -> [u8; 32] {
    Keypair::generate_ed25519().public().try_into_ed25519().unwrap().to_bytes()
}

fn invalid_address() -> [u8; 32] {
    for b in 0u8..=255 {
        let mut candidate = [b; 32];
        candidate[0] = 2;
        if ed25519::PublicKey::try_from_bytes(&candidate).is_err() {
            return candidate;
        }
    }
    panic!("no invalid key found");
}

#[test]
fn public_address_of_ed25519_key() {
    let public = Keypair::generate_ed25519().public();
    let expected = public.clone().try_into_ed25519().unwrap().to_bytes();
    let encoded = public.encode_protobuf();
    assert_eq!(&encoded[..4], &[8u8, 1, 18, 32]);
    assert_eq!(public_address(&encoded), Some(expected));
}

#[test]
fn public_address_of_garbage() {
    assert_eq!(public_address(&[1u8, 2, 3]), None);
    assert_eq!(public_address(&[]), None);
}

#[test]
fn public_address_of_invalid_point() {
    let mut encoded = vec![8u8, 1, 18, 32];
    encoded.extend_from_slice(&invalid_address());
    assert_eq!(public_address(&encoded), None);
}

#[test]
fn peer_id_matches_libp2p() {
    let address = ed25519_address();
    let key: PublicKey = ed25519::PublicKey::try_from_bytes(&address).unwrap().into();
    let bytes = peer_id_of_address(&address).unwrap();
    assert_eq!(bytes, key.to_peer_id().to_bytes());
    assert_eq!(&bytes[..6], &[0u8, 36, 8, 1, 18, 32]);
    assert_eq!(&bytes[6..], &address[..]);
}

#[test]
fn peer_id_gives_back_address() {
    let address = ed25519_address();
    let peer = Peer::new(address, [10, 0, 0, 1], 9000);
    assert_eq!(public_address_of_peer(&peer.peer_id), Some(address));
}

#[test]
fn hashed_peer_id_holds_no_address() {
    let peer_id = libp2p::PeerId::random().to_bytes();
    assert_eq!(public_address_of_peer(&peer_id), None);
    assert_eq!(public_address_of_peer(&[0u8]), None);
    assert_eq!(public_address_of_peer(&[0u8, 3, 1, 2]), None);
}

#[test]
fn peer_new_keeps_endpoint() {
    let address = ed25519_address();
    let peer = Peer::new(address, [192, 168, 1, 20], 30333);
    assert_eq!(peer.ip_address, [192, 168, 1, 20]);
    assert_eq!(peer.port, 30333);
    assert_eq!(peer.peer_id, peer_id_of_address(&address).unwrap());
    let parsed = libp2p::PeerId::from_bytes(&peer.peer_id).unwrap();
    assert_eq!(parsed.to_bytes(), peer.peer_id);
}

#[test]
fn peer_try_new_rejects_invalid_key() {
    let address = invalid_address();
    assert!(Peer::try_new(address, [1, 2, 3, 4], 1).is_none());
    assert!(peer_id_of_address(&address).is_none());
    assert!(Peer::try_new(ed25519_address(), [1, 2, 3, 4], 1).is_some());
}

#[test]
fn multiaddr_of_endpoint() {
    assert_eq!(multiaddr_text([127, 0, 0, 1], 8080), "/ip4/127.0.0.1/tcp/8080");
    assert_eq!(multiaddr([127, 0, 0, 1], 8080), vec![4u8, 127, 0, 0, 1, 6, 0x1f, 0x90]);
    assert_eq!(multiaddr_text([0, 0, 0, 0], 0), "/ip4/0.0.0.0/tcp/0");
    assert_eq!(multiaddr([0, 0, 0, 0], 0), vec![4u8, 0, 0, 0, 0, 6, 0, 0]);
    assert_eq!(multiaddr_text([255, 255, 255, 255], 65535), "/ip4/255.255.255.255/tcp/65535");
    assert_eq!(multiaddr([255, 255, 255, 255], 65535), vec![4u8, 255, 255, 255, 255, 6, 255, 255]);
}

#[test]
fn multiaddr_matches_libp2p() {
    let bytes = multiaddr([10, 20, 30, 40], 4001);
    let parsed = libp2p::Multiaddr::try_from(bytes.clone()).unwrap();
    assert_eq!(parsed.to_string(), "/ip4/10.20.30.40/tcp/4001");
    assert_eq!(parsed.to_vec(), bytes);
}

#[test]
fn behaviour_settings() {
    let address = ed25519_address();
    let config = behaviour_config(address, 10);
    assert_eq!(config.protocol_version, "/lynk_p2p/1.0.0");
    assert_eq!(config.max_transmit_size, 4 * 1024 * 1024);
    assert_eq!(config.heartbeat_secs, 10);
    assert_eq!(config.local_peer_id, peer_id_of_address(&address).unwrap());
    assert_eq!(config.local_topic.name(), base64url::encode(address));
    assert!(try_behaviour_config(invalid_address(), 10).is_none());
    assert!(try_behaviour_config(address, 10).is_some());
}

#[test]
fn local_identity_of_keypair() {
    let keypair = Keypair::generate_ed25519();
    let identity = local_identity(&keypair.public().encode_protobuf()).unwrap();
    assert_eq!(identity.address, keypair.public().try_into_ed25519().unwrap().to_bytes());
    assert_eq!(identity.peer_id, keypair.public().to_peer_id().to_bytes());
    let peer = Peer::new(identity.address, [10, 0, 0, 2], 4001);
    assert_eq!(peer.peer_id, identity.peer_id);
}

#[test]
fn local_identity_of_other_keys() {
    assert!(local_identity(&[8u8, 2, 18, 3, 1, 2, 3]).is_none());
    assert!(local_identity(&[8u8, 0, 18, 0]).is_none());
    assert!(local_identity(&[]).is_none());
}

#[test]
fn public_address_of_other_key_types() {
    let mut encoded = vec![8u8, 2, 18, 32];
    encoded.extend_from_slice(&ed25519_address());
    assert_eq!(public_address(&encoded), None);
    let mut short = vec![8u8, 1, 18, 31];
    short.extend_from_slice(&[5u8; 31]);
    assert_eq!(public_address(&short), None);
}

#[test]
fn address_topics_are_base64url() {
    for seed in 0u8..8 {
        let mut address = [0u8; 32];
        for (i, b) in address.iter_mut().enumerate() {
            *b = (i as u8).wrapping_mul(37).wrapping_add(seed.wrapping_mul(91));
        }
        let topic = lynk::messages::NetworkTopic::from_address(address);
        assert_eq!(topic.name(), base64url::encode(address));
        assert_eq!(topic.name().len(), 43);
    }
}

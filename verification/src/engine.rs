//! The decisions that the network task of a peer takes: what becomes of a command of the
//! application, and of a gossip message received from the network; and the settings the
//! peer's network behaviour is built with.
use vstd::prelude::*;

use crate::gossip::{
    broadcast, cached_messages, has_known_peers, heartbeat_nanos, new_signed_gossip,
    publication, publisher_peer_id, send_to, seen_message_ids, subscribe, subscribed_topics,
    topic_names, transmit_limit, uses_library_message_ids, Gossip, PublishFailure,
};
use crate::identity::{
    address_of_peer_id, ed25519_key_valid, ed25519_peer_id, peer_id_of_address,
    public_address_of_peer,
};
use crate::messages::{address_topic, Envelope, Message, NetworkTopic, NetworkTopicHash};
use crate::network::SendCommand;
use crate::PublicAddress;

use libp2p::identity::Keypair;

verus! {

/// A message to hand to the chain of message gates, with the hash of its topic.
pub struct Delivery {
    pub topic_hash: NetworkTopicHash,
    pub envelope: Envelope,
}

/// What became of a command.
pub enum CommandOutcome {
    /// The message was sent to this peer itself: it goes to the chain of message gates.
    Deliver(Delivery),
    /// The message was published on the topic of another peer.
    Sent(Result<Vec<u8>, PublishFailure>),
    /// The message was published on the topic of a broadcast.
    Broadcast(Result<Vec<u8>, PublishFailure>),
}

/// Whether two public addresses are the same.
pub fn same_address(a: &PublicAddress, b: &PublicAddress) -> (same: bool)
    ensures
        same == (a@ == b@),
{
    let mut i: usize = 0;
    while i < 32
        invariant
            0 <= i <= 32,
            forall|j: int| 0 <= j < i ==> a@[j] == b@[j],
        decreases 32 - i,
    {
        if a[i] != b[i] {
            return false;
        }
        i = i + 1;
    }
    assert(a@ =~= b@);
    true
}

/// Carries out a command of the application on the peer of public address `local`: a
/// message sent to the peer itself goes to its own gate chain, on the topic of its
/// address, and nothing is published; one sent to another peer is published on that
/// peer's topic; a broadcast is published on its topic.
pub fn handle_command(gossip: &mut Gossip, local: PublicAddress, command: SendCommand) -> (outcome: CommandOutcome)
    ensures
        subscribed_topics(*final(gossip)) == subscribed_topics(*old(gossip)),
        match command {
            SendCommand::SendTo(address, message) => if address@ == local@ {
                (outcome matches CommandOutcome::Deliver(d) && d.topic_hash@ == address_topic(
                    local@,
                ) && d.envelope.origin == local && d.envelope.message == message) && *final(gossip)
                    == *old(gossip)
            } else {
                outcome matches CommandOutcome::Sent(r) && publication(
                    *old(gossip),
                    *final(gossip),
                    address_topic(address@),
                    message@,
                    r,
                )
            },
            SendCommand::Broadcast(topic, message) => outcome matches CommandOutcome::Broadcast(r)
                && publication(*old(gossip), *final(gossip), topic@, message@, r),
        },
{
    match command {
        SendCommand::SendTo(address, message) => {
            if same_address(&address, &local) {
                let topic_hash = NetworkTopic::from_address(local).hash();
                let envelope = Envelope { origin: local, message };
                CommandOutcome::Deliver(Delivery { topic_hash, envelope })
            } else {
                CommandOutcome::Sent(send_to(gossip, address, message))
            }
        },
        SendCommand::Broadcast(topic, message) => {
            CommandOutcome::Broadcast(broadcast(gossip, &topic, message))
        },
    }
}

/// The delivery of a gossip message received from the network, with the bytes of the
/// peer id of its source, if it has one, on the peer of public address `local`: a message
/// with a source, on a topic the peer is subscribed to, goes to the chain of gates, in an
/// envelope from the public address of its source; where the source's peer id holds no
/// Ed25519 key, there is no such address and the envelope names the local address.
pub fn handle_gossip_message(
    gossip: &Gossip,
    local: PublicAddress,
    source: Option<Vec<u8>>,
    topic_hash: NetworkTopicHash,
    data: Message,
) -> (delivery: Option<Delivery>)
    ensures
        delivery is Some <==> (source is Some && subscribed_topics(*gossip).contains(topic_hash@)),
        delivery matches Some(d) ==> (source matches Some(s) && d.topic_hash@ == topic_hash@
            && d.envelope.message == data && match address_of_peer_id(s@) {
            Some(a) => d.envelope.origin@ == a,
            None => d.envelope.origin == local,
        }),
{
    match source {
        Some(peer_id) => {
            if crate::gossip::is_subscribed(gossip, &topic_hash) {
                let origin = match public_address_of_peer(peer_id.as_slice()) {
                    Some(origin) => origin,
                    None => local,
                };
                Some(Delivery { topic_hash, envelope: Envelope { origin, message: data } })
            } else {
                None
            }
        },
        None => None,
    }
}

/// The settings that the network behaviour of a peer is built with.
pub struct BehaviourConfig {
    /// The protocol name of the Kademlia and Identify protocols.
    pub protocol_version: String,
    /// The peer id of the local peer, in its binary form.
    pub local_peer_id: Vec<u8>,
    /// The largest gossipsub message, in bytes.
    pub max_transmit_size: usize,
    /// The interval between gossipsub heartbeats, in seconds.
    pub heartbeat_secs: u64,
    /// The topic of the messages sent to the local peer, which it subscribes to.
    pub local_topic: NetworkTopic,
}

/// The protocol name of the Lynk network.
pub open spec fn protocol_version() -> Seq<char> {
    "/lynk_p2p/1.0.0"@
}

/// The largest gossipsub message: blocks are limited to 2 MB, with a factor of safety of 2.
pub open spec fn max_transmit_size() -> nat {
    4 * 1024 * 1024
}

/// The settings of the network behaviour of the peer with public address `id`, whose
/// gossipsub heartbeat comes every `heartbeat_secs` seconds.
///
/// The address must be a valid Ed25519 public key.
pub fn behaviour_config(id: PublicAddress, heartbeat_secs: u64) -> (config: BehaviourConfig)
    requires
        ed25519_key_valid(id@),
    ensures
        config.protocol_version@ == protocol_version(),
        config.local_peer_id@ == ed25519_peer_id(id@),
        config.max_transmit_size == max_transmit_size(),
        config.heartbeat_secs == heartbeat_secs,
        config.local_topic@ == address_topic(id@),
{
    proof {
        reveal_strlit("/lynk_p2p/1.0.0");
    }
    let local_peer_id = match peer_id_of_address(&id) {
        Some(peer_id) => peer_id,
        None => {
            proof {
                assert(false);
            }
            Vec::new()
        },
    };
    BehaviourConfig {
        protocol_version: String::from_str("/lynk_p2p/1.0.0"),
        local_peer_id,
        max_transmit_size: 4 * 1024 * 1024,
        heartbeat_secs,
        local_topic: NetworkTopic::from_address(id),
    }
}

/// The settings of the network behaviour of the peer with public address `id`, or None
/// where the address is not a valid Ed25519 public key.
pub fn try_behaviour_config(id: PublicAddress, heartbeat_secs: u64) -> (config: Option<BehaviourConfig>)
    ensures
        config is Some <==> ed25519_key_valid(id@),
        config matches Some(c) ==> c.protocol_version@ == protocol_version()
            && c.local_peer_id@ == ed25519_peer_id(id@) && c.max_transmit_size
            == max_transmit_size() && c.heartbeat_secs == heartbeat_secs && c.local_topic@
            == address_topic(id@),
{
    if peer_id_of_address(&id).is_some() {
        Some(behaviour_config(id, heartbeat_secs))
    } else {
        None
    }
}

/// The gossipsub behaviour of a new peer, with the peer id it publishes its messages from.
pub struct LocalGossip {
    pub gossip: Gossip,
    /// The peer id (as bytes) of the signing key's public key.
    pub publisher: Vec<u8>,
}

/// The gossipsub behaviour of a new peer, signing its messages with `local_key`, built
/// with the settings `config`: it is subscribed exactly to the topic of the peer's own
/// address, has seen and cached no message, knows no peer yet, transmits at most the
/// configured size, beats at the configured interval, gives messages this library's ids
/// and publishes them from the peer id of `local_key`, which comes with it.
pub fn new_gossip(local_key: &Keypair, config: &BehaviourConfig) -> (created: LocalGossip)
    requires
        config.max_transmit_size >= 100,
        config.heartbeat_secs > 0,
    ensures
        subscribed_topics(created.gossip) == set![config.local_topic@],
        seen_message_ids(created.gossip).is_empty(),
        cached_messages(created.gossip).dom().is_empty(),
        !has_known_peers(created.gossip),
        transmit_limit(created.gossip) == config.max_transmit_size,
        heartbeat_nanos(created.gossip) == config.heartbeat_secs * 1_000_000_000,
        uses_library_message_ids(created.gossip),
        publisher_peer_id(created.gossip) == Some(created.publisher@),
{
    let (mut gossip, publisher) = new_signed_gossip(
        local_key,
        config.max_transmit_size,
        config.heartbeat_secs,
    );
    let topic = NetworkTopic::new(String::from_str(config.local_topic.name()));
    let topics = vec![topic];
    assert(topics@ == seq![topic]);
    let subscribed = subscribe(&mut gossip, topics);
    assert(subscribed is Ok);
    assert(topic_names(seq![topic]) =~= set![config.local_topic@]) by {
        assert(seq![topic][0] == topic);
    }
    assert(subscribed_topics(gossip) =~= set![config.local_topic@]);
    LocalGossip { gossip, publisher }
}

/// A new peer is subscribed to its own topic and to no other: a message's topic is one it
/// is subscribed to exactly when it is the topic of the peer's address.
pub proof fn lemma_new_peer_subscriptions(gossip: Gossip, id: Seq<u8>, topic: Seq<char>)
    requires
        subscribed_topics(gossip) == set![address_topic(id)],
    ensures
        subscribed_topics(gossip).contains(topic) <==> topic == address_topic(id),
{
}

} // verus!

//! The gossipsub behaviour of a peer, seen as the set of topics it is subscribed to:
//! subscribing to topics, checking a message's topic against them, and publishing.
use vstd::prelude::*;

use crate::messages::{address_topic, message_id_text, Message, NetworkTopic, NetworkTopicHash};
use crate::PublicAddress;

use libp2p::identity::Keypair;
use libp2p::gossipsub::{
    AllowAllSubscriptionFilter, Behaviour, IdentityTransform, PublishError,
};

verus! {

#[verifier::external_type_specification]
#[verifier::external_body]
#[verifier::reject_recursive_types(D)]
#[verifier::reject_recursive_types(F)]
pub struct ExGossipsubBehaviour<D, F>(Behaviour<D, F>);

#[verifier::external_type_specification]
#[verifier::external_body]
pub struct ExIdentityTransform(IdentityTransform);

#[verifier::external_type_specification]
#[verifier::external_body]
pub struct ExAllowAllSubscriptionFilter(AllowAllSubscriptionFilter);

#[verifier::external_type_specification]
#[verifier::external_body]
pub struct ExPublishError(PublishError);

#[verifier::external_type_specification]
#[verifier::external_body]
pub struct ExKeypair(Keypair);

#[verifier::external_type_specification]
#[verifier::external_body]
pub struct ExSigningError(libp2p::identity::SigningError);

#[verifier::external_type_specification]
#[verifier::external_body]
pub struct ExIoError(std::io::Error);

/// The gossipsub behaviour of a peer: identity data transform, every topic allowed.
pub type Gossip = Behaviour<IdentityTransform, AllowAllSubscriptionFilter>;

/// The names of the topics that the gossipsub behaviour is subscribed to: the keys of its
/// mesh, which `Behaviour::topics` lists.
pub uninterp spec fn subscribed_topics(gossip: Behaviour<IdentityTransform, AllowAllSubscriptionFilter>) -> Set<Seq<char>>;

/// The identifiers (as bytes) of the messages that the gossipsub behaviour has seen:
/// the keys of its duplicate cache, which `Behaviour::publish` consults and fills.
pub uninterp spec fn seen_message_ids(gossip: Behaviour<IdentityTransform, AllowAllSubscriptionFilter>) -> Set<Seq<u8>>;

/// The messages held in the message cache of the gossipsub behaviour, by id (as bytes):
/// the topic (hash) and data of each.
pub uninterp spec fn cached_messages(gossip: Behaviour<IdentityTransform, AllowAllSubscriptionFilter>) -> Map<Seq<u8>, (Seq<char>, Seq<u8>)>;

/// The largest transmission, in bytes, that the gossipsub behaviour was configured with
/// (`Config::max_transmit_size`).
pub uninterp spec fn transmit_limit(gossip: Behaviour<IdentityTransform, AllowAllSubscriptionFilter>) -> nat;

/// Whether the gossipsub behaviour knows of peers to announce a subscription to (its map
/// of the topics of known peers has entries).
pub uninterp spec fn has_known_peers(gossip: Behaviour<IdentityTransform, AllowAllSubscriptionFilter>) -> bool;

/// The heartbeat interval that the gossipsub behaviour was configured with, in
/// nanoseconds (`Config::heartbeat_interval`).
pub uninterp spec fn heartbeat_nanos(gossip: Behaviour<IdentityTransform, AllowAllSubscriptionFilter>) -> nat;

/// The peer id (as bytes) that the gossipsub behaviour publishes its messages from: the
/// author of a signing or authored behaviour (`PublishConfig::Signing`, `Author`); none for
/// a behaviour with random or no authors.
pub uninterp spec fn publisher_peer_id(gossip: Behaviour<IdentityTransform, AllowAllSubscriptionFilter>) -> Option<Seq<u8>>;

/// Whether the message-id function that the gossipsub behaviour was configured with is
/// [crate::messages::message_id] of the message's topic, source and sequence number.
pub uninterp spec fn uses_library_message_ids(gossip: Behaviour<IdentityTransform, AllowAllSubscriptionFilter>) -> bool;

/// The settings that a gossipsub behaviour keeps while it subscribes and publishes: its
/// configuration (limit, heartbeat, message ids), its publishing identity and its known
/// peers.
pub open spec fn same_settings(before: Behaviour<IdentityTransform, AllowAllSubscriptionFilter>, after: Behaviour<IdentityTransform, AllowAllSubscriptionFilter>) -> bool {
    &&& transmit_limit(after) == transmit_limit(before)
    &&& heartbeat_nanos(after) == heartbeat_nanos(before)
    &&& publisher_peer_id(after) == publisher_peer_id(before)
    &&& uses_library_message_ids(after) == uses_library_message_ids(before)
    &&& has_known_peers(after) == has_known_peers(before)
}

/// The bytes of the id that a behaviour using this library's message ids gives a message
/// of `topic` published from `publisher` with sequence number `number`: the UTF-8 bytes of
/// its text.
pub open spec fn library_message_id(topic: Seq<char>, publisher: Seq<u8>, number: u64) -> Seq<u8> {
    vstd::utf8::encode_utf8(message_id_text(topic, Some(publisher), Some(number)))
}

/// Why a publication failed.
#[derive(Debug)]
pub enum PublishFailure {
    /// This message has already been published.
    Duplicate,
    /// Signing the message failed.
    SigningFailed(libp2p::identity::SigningError),
    /// There were no peers to send this message to.
    InsufficientPeers,
    /// The message is too large to transmit.
    MessageTooLarge,
    /// The data transform failed.
    TransformFailed(std::io::Error),
}

/// What holds of the gossipsub behaviour after a publication of `data` on `topic` that
/// returned `r`: the subscriptions and the settings stay; data too large for the limit
/// fails (the size check comes after the signing only); a failure publishes nothing
/// (the duplicate and message caches stay); it never fails in the data transform; it
/// fails as a duplicate only where the library's id of the message was seen; where it
/// succeeded, the returned
/// id is the library's id of the message (where the behaviour uses those ids and has a
/// publisher), it was not seen before and is seen now, the data fit under the limit, and
/// the message cache holds the id, with this topic and data where it did not hold that id
/// before.
pub open spec fn publication(
    before: Behaviour<IdentityTransform, AllowAllSubscriptionFilter>,
    after: Behaviour<IdentityTransform, AllowAllSubscriptionFilter>,
    topic: Seq<char>,
    data: Seq<u8>,
    r: Result<Vec<u8>, PublishFailure>,
) -> bool {
    &&& subscribed_topics(after) == subscribed_topics(before)
    &&& same_settings(before, after)
    &&& (data.len() >= transmit_limit(before) ==> (r matches Err(e) && (e is MessageTooLarge
        || e is SigningFailed)))
    &&& (r is Err ==> seen_message_ids(after) == seen_message_ids(before) && cached_messages(
        after,
    ) == cached_messages(before))
    &&& !(r matches Err(PublishFailure::TransformFailed(_)))
    &&& ((r matches Err(PublishFailure::Duplicate)) ==> (uses_library_message_ids(before)
        && publisher_peer_id(before) is Some) ==> exists|number: u64|
        seen_message_ids(before).contains(
            #[trigger] library_message_id(topic, publisher_peer_id(before)->0, number),
        ))
    &&& (r matches Ok(id) ==> {
        &&& (uses_library_message_ids(before) && publisher_peer_id(before) is Some) ==> exists|
            number: u64,
        | id@ == #[trigger] library_message_id(topic, publisher_peer_id(before)->0, number)
        &&& !seen_message_ids(before).contains(id@)
        &&& seen_message_ids(after).contains(id@)
        &&& data.len() < transmit_limit(before)
        &&& cached_messages(after).contains_key(id@)
        &&& (!cached_messages(before).contains_key(id@) ==> cached_messages(after)[id@] == (
            topic,
            data,
        ))
    })
}

/// Why a subscription failed.
#[derive(Debug)]
pub enum SubscribeError {
    /// The subscription filter refused the topic.
    NotAllowed,
    /// The subscription could not be sent to a peer.
    PublishFailed(PublishError),
}

/// Calls `Behaviour::subscribe` with the identity-hashed topic of that name, and maps its
/// error. Trusted, from the crate's source, to leave the subscriptions alone and return
/// `Ok(false)` where the topic is subscribed already; otherwise either to add the topic
/// (`join` inserts it in the mesh) and return `Ok(true)`, or to fail while announcing the
/// subscription to a peer and leave the subscriptions alone; it can fail only where it
/// has peers to announce to. `AllowAllSubscriptionFilter` refuses no topic. It changes
/// neither the known peers, nor the configuration, nor the duplicate and message caches.
#[verifier::external_body]
fn gossip_subscribe(gossip: &mut Gossip, topic: &str) -> (r: Result<bool, SubscribeError>)
    ensures
        !has_known_peers(*old(gossip)) ==> r is Ok,
        same_settings(*old(gossip), *final(gossip)),
        seen_message_ids(*final(gossip)) == seen_message_ids(*old(gossip)),
        cached_messages(*final(gossip)) == cached_messages(*old(gossip)),
        subscribed_topics(*old(gossip)).contains(topic@) ==> (r matches Ok(false))
            && subscribed_topics(*final(gossip)) == subscribed_topics(*old(gossip)),
        !subscribed_topics(*old(gossip)).contains(topic@) ==> match r {
            Ok(added) => added && subscribed_topics(*final(gossip)) == subscribed_topics(
                *old(gossip),
            ).insert(topic@),
            Err(e) => e is PublishFailed && subscribed_topics(*final(gossip)) == subscribed_topics(
                *old(gossip),
            ),
        },
{
    match gossip.subscribe(&libp2p::gossipsub::IdentTopic::new(topic)) {
        Ok(added) => Ok(added),
        Err(libp2p::gossipsub::SubscriptionError::NotAllowed) => Err(SubscribeError::NotAllowed),
        Err(libp2p::gossipsub::SubscriptionError::PublishError(e)) => Err(
            SubscribeError::PublishFailed(e),
        ),
    }
}

/// Calls `Behaviour::topics` and renders each topic hash as its string. Trusted to list
/// exactly the subscribed topics.
#[verifier::external_body]
fn gossip_topics(gossip: &Gossip) -> (topics: Vec<String>)
    ensures
        forall|t: Seq<char>|
            subscribed_topics(*gossip).contains(t) <==> exists|i: int|
                0 <= i < topics@.len() && (#[trigger] topics@[i])@ == t,
{
    gossip.topics().map(|t| t.to_string()).collect()
}

/// Calls `Behaviour::publish` on the identity-hashed topic of that name, and renders the
/// message id it returns as its bytes. Whether it succeeds, and the identifier it gives
/// the message, depend on the peers known, on the messages seen and on the time. Trusted,
/// from the crate's source, to leave the subscriptions, the configuration and the known
/// peers alone, and, where it succeeds: to have published a message whose id was not in
/// the duplicate cache (it fails with `Duplicate` otherwise) and is in it afterwards
/// (`duplicate_cache.insert`); whose encoding fit in `max_transmit_size` (it fails with
/// `MessageTooLarge` otherwise), so that the data is shorter than that; and to have put
/// the message, with the topic hash and the data (unchanged by `IdentityTransform`), in the
/// message cache under its id (`mcache.put`, which keeps an entry already held under
/// that id). Every failure comes before `duplicate_cache.insert` and `mcache.put` (the
/// sends after them cannot fail: the size check has passed, so `fragment_message` takes
/// the message), so a failure leaves both caches alone; `IdentityTransform` never fails;
/// `Duplicate` comes exactly where the id computed for the message is in the duplicate
/// cache.
#[verifier::external_body]
fn gossip_publish(gossip: &mut Gossip, topic: &str, data: Message) -> (r: Result<Vec<u8>, PublishFailure>)
    ensures
        subscribed_topics(*final(gossip)) == subscribed_topics(*old(gossip)),
        same_settings(*old(gossip), *final(gossip)),
        data@.len() >= transmit_limit(*old(gossip)) ==> (r matches Err(e) && (e is MessageTooLarge
            || e is SigningFailed)),
        r is Err ==> seen_message_ids(*final(gossip)) == seen_message_ids(*old(gossip))
            && cached_messages(*final(gossip)) == cached_messages(*old(gossip)),
        !(r matches Err(PublishFailure::TransformFailed(_))),
        (r matches Err(PublishFailure::Duplicate)) ==> ((uses_library_message_ids(*old(gossip))
            && publisher_peer_id(*old(gossip)) is Some) ==> exists|number: u64|
            seen_message_ids(*old(gossip)).contains(
                #[trigger] library_message_id(topic@, publisher_peer_id(*old(gossip))->0, number),
            )),
        r matches Ok(id) ==> !seen_message_ids(*old(gossip)).contains(id@)
            && seen_message_ids(*final(gossip)).contains(id@) && data@.len() < transmit_limit(
            *old(gossip),
        ),
        r matches Ok(id) ==> ((uses_library_message_ids(*old(gossip)) && publisher_peer_id(
            *old(gossip),
        ) is Some) ==> exists|number: u64|
            id@ == #[trigger] library_message_id(topic@, publisher_peer_id(*old(gossip))->0, number)),
        r matches Ok(id) ==> cached_messages(*final(gossip)).contains_key(id@) && (
        !cached_messages(*old(gossip)).contains_key(id@) ==> cached_messages(*final(gossip))[id@]
            == (topic@, data@)),
{
    match gossip.publish(libp2p::gossipsub::IdentTopic::new(topic), data) {
        Ok(id) => Ok(id.0),
        Err(PublishError::Duplicate) => Err(PublishFailure::Duplicate),
        Err(PublishError::SigningError(e)) => Err(PublishFailure::SigningFailed(e)),
        Err(PublishError::InsufficientPeers) => Err(PublishFailure::InsufficientPeers),
        Err(PublishError::MessageTooLarge) => Err(PublishFailure::MessageTooLarge),
        Err(PublishError::TransformFailed(e)) => Err(PublishFailure::TransformFailed(e)),
    }
}

/// Calls `ConfigBuilder::build` with the given maximal transmission size, the message id
/// function of this library (`message_id` of the message's topic, source peer id bytes and
/// sequence number) and the given heartbeat interval, then `Behaviour::new` with message
/// signing by `local_key`, and renders the peer id of `local_key`'s public key as bytes.
/// Trusted, from the crate's source, not to fail where the size is at least 100 (the one
/// check of `build` that the defaults do not pass already; signing passes
/// `validate_config`) and the interval is positive (`BackoffStorage::new` divides by it),
/// and to return a behaviour with an empty mesh, empty duplicate and message caches, no
/// known peers, that limit, that heartbeat, this library's message ids, and the key's peer
/// id as the author of its messages (`PublishConfig::Signing`).
#[verifier::external_body]
pub(crate) fn new_signed_gossip(local_key: &Keypair, max_transmit_size: usize, heartbeat_secs: u64) -> (created: (Gossip, Vec<u8>))
    requires
        max_transmit_size >= 100,
        heartbeat_secs > 0,
    ensures
        subscribed_topics(created.0).is_empty(),
        seen_message_ids(created.0).is_empty(),
        cached_messages(created.0).dom().is_empty(),
        has_known_peers(created.0) == false,
        transmit_limit(created.0) == max_transmit_size,
        heartbeat_nanos(created.0) == heartbeat_secs * 1_000_000_000,
        uses_library_message_ids(created.0),
        publisher_peer_id(created.0) == Some(created.1@),
{
    let config = libp2p::gossipsub::ConfigBuilder::default()
        .max_transmit_size(max_transmit_size)
        .message_id_fn(|m: &libp2p::gossipsub::Message| {
            let source = m.source.map(|s| s.to_bytes());
            libp2p::gossipsub::MessageId::from(
                crate::messages::message_id(m.topic.as_str(), source.as_deref(), m.sequence_number),
            )
        })
        .heartbeat_interval(std::time::Duration::from_secs(heartbeat_secs))
        .build()
        .unwrap();
    let signing = libp2p::gossipsub::MessageAuthenticity::Signed(local_key.clone());
    let gossip = Behaviour::new(signing, config).unwrap();
    (gossip, local_key.public().to_peer_id().to_bytes())
}

/// The names of a sequence of topics, as a set.
pub open spec fn topic_names(topics: Seq<NetworkTopic>) -> Set<Seq<char>> {
    Set::new(|t: Seq<char>| exists|i: int| 0 <= i < topics.len() && (#[trigger] topics[i])@ == t)
}

/// Subscribes the gossipsub behaviour to the topics, in order, stopping at the first
/// failure.
pub fn subscribe(gossip: &mut Gossip, topics: Vec<NetworkTopic>) -> (r: Result<(), SubscribeError>)
    ensures
        r is Ok ==> subscribed_topics(*final(gossip)) == subscribed_topics(*old(gossip)).union(
            topic_names(topics@),
        ),
        r is Err ==> exists|k: int|
            0 <= k < topics@.len() && !subscribed_topics(*old(gossip)).contains(
                #[trigger] topics@[k]@,
            ) && subscribed_topics(*final(gossip)) == subscribed_topics(*old(gossip)).union(
                topic_names(topics@.take(k)),
            ),
        (forall|i: int|
            0 <= i < topics@.len() ==> subscribed_topics(*old(gossip)).contains(
                #[trigger] topics@[i]@,
            )) ==> r is Ok,
        !has_known_peers(*old(gossip)) ==> r is Ok,
        same_settings(*old(gossip), *final(gossip)),
        seen_message_ids(*final(gossip)) == seen_message_ids(*old(gossip)),
        cached_messages(*final(gossip)) == cached_messages(*old(gossip)),
{
    let ghost start = subscribed_topics(*gossip);
    let n = topics.len();
    let mut i: usize = 0;
    while i < n
        invariant
            n == topics@.len(),
            0 <= i <= n,
            start == subscribed_topics(*old(gossip)),
            same_settings(*old(gossip), *gossip),
            seen_message_ids(*gossip) == seen_message_ids(*old(gossip)),
            cached_messages(*gossip) == cached_messages(*old(gossip)),
            subscribed_topics(*gossip) == start.union(topic_names(topics@.take(i as int))),
        decreases n - i,
    {
        let ghost before = subscribed_topics(*gossip);
        let result = gossip_subscribe(gossip, topics[i].name());
        assert(topics@.take(i + 1) == topics@.take(i as int).push(topics@[i as int]));
        assert(topic_names(topics@.take(i + 1)) =~= topic_names(topics@.take(i as int)).insert(
            topics@[i as int]@,
        )) by {
            let next = topics@.take(i + 1);
            assert forall|t: Seq<char>| #[trigger]
                topic_names(next).contains(t) implies topic_names(topics@.take(i as int)).insert(
                topics@[i as int]@,
            ).contains(t) by {
                let j = choose|j: int| 0 <= j < next.len() && (#[trigger] next[j])@ == t;
                if j < i {
                    assert(topics@.take(i as int)[j] == next[j]);
                }
            }
            assert forall|t: Seq<char>| #[trigger]
                topic_names(topics@.take(i as int)).insert(topics@[i as int]@).contains(
                t,
            ) implies topic_names(next).contains(t) by {
                if t == topics@[i as int]@ {
                    assert(next[i as int] == topics@[i as int]);
                } else {
                    let j = choose|j: int|
                        0 <= j < i && (#[trigger] topics@.take(i as int)[j])@ == t;
                    assert(next[j] == topics@.take(i as int)[j]);
                }
            }
        }
        match result {
            Ok(_) => {
                assert(subscribed_topics(*gossip) =~= start.union(
                    topic_names(topics@.take(i + 1)),
                ));
            },
            Err(e) => {
                proof {
                    assert(!before.contains(topics@[i as int]@));
                    assert(!start.contains(topics@[i as int]@));
                    assert(subscribed_topics(*gossip) == start.union(
                        topic_names(topics@.take(i as int)),
                    ));
                }
                return Err(e);
            },
        }
        i = i + 1;
    }
    assert(topics@.take(n as int) =~= topics@);
    Ok(())
}

/// Whether the gossipsub behaviour is subscribed to the topic of this hash.
pub fn is_subscribed(gossip: &Gossip, topic: &NetworkTopicHash) -> (subscribed: bool)
    ensures
        subscribed == subscribed_topics(*gossip).contains(topic@),
{
    let topics = gossip_topics(gossip);
    let n = topics.len();
    let mut i: usize = 0;
    while i < n
        invariant
            n == topics@.len(),
            0 <= i <= n,
            forall|j: int| 0 <= j < i ==> (#[trigger] topics@[j])@ != topic@,
            forall|t: Seq<char>|
                subscribed_topics(*gossip).contains(t) <==> exists|j: int|
                    0 <= j < topics@.len() && (#[trigger] topics@[j])@ == t,
        decreases n - i,
    {
        if topic.is_hash_of(&topics[i]) {
            assert(topics@[i as int]@ == topic@);
            return true;
        }
        i = i + 1;
    }
    false
}

/// Sends a message to the peer with the given public address: publishes it on the topic
/// of that address. On success it returns the id (as bytes) of the new message, which the
/// behaviour had not seen before, has recorded as seen and holds in its message cache.
pub fn send_to(gossip: &mut Gossip, address: PublicAddress, message: Message) -> (r: Result<Vec<u8>, PublishFailure>)
    ensures
        publication(*old(gossip), *final(gossip), address_topic(address@), message@, r),
{
    let topic = NetworkTopic::from_address(address);
    gossip_publish(gossip, topic.name(), message)
}

/// Broadcasts a message to the peers subscribed to the topic. On success it returns the id
/// (as bytes) of the new message, which the behaviour had not seen before, has recorded as
/// seen and holds in its message cache.
pub fn broadcast(gossip: &mut Gossip, topic: &NetworkTopic, message: Message) -> (r: Result<Vec<u8>, PublishFailure>)
    ensures
        publication(*old(gossip), *final(gossip), topic@, message@, r),
{
    gossip_publish(gossip, topic.name(), message)
}

/// A subscription is what a later check finds: once a subscription to `topics` has
/// succeeded, the behaviour is subscribed to each of them, and still to every topic it was
/// subscribed to before.
pub proof fn lemma_subscribed_after_subscribe(before: Gossip, after: Gossip, topics: Seq<NetworkTopic>)
    requires
        subscribed_topics(after) == subscribed_topics(before).union(topic_names(topics)),
    ensures
        forall|i: int| 0 <= i < topics.len() ==> subscribed_topics(after).contains(#[trigger] topics[i]@),
        subscribed_topics(before).subset_of(subscribed_topics(after)),
{
    assert forall|i: int| 0 <= i < topics.len() implies subscribed_topics(after).contains(
        #[trigger] topics[i]@,
    ) by {
        assert(topic_names(topics).contains(topics[i]@));
    }
}

/// A failed publication publishes nothing: whatever `send_to`, `broadcast` or a command
/// reports as failed left the behaviour's duplicate and message caches as they were.
pub proof fn lemma_failed_publication_publishes_nothing(
    before: Behaviour<IdentityTransform, AllowAllSubscriptionFilter>,
    after: Behaviour<IdentityTransform, AllowAllSubscriptionFilter>,
    topic: Seq<char>,
    data: Seq<u8>,
    r: Result<Vec<u8>, PublishFailure>,
)
    requires
        publication(before, after, topic, data, r),
        r is Err,
    ensures
        seen_message_ids(after) == seen_message_ids(before),
        cached_messages(after) == cached_messages(before),
{
}

/// A publication reported as successful published a new message of that topic and data:
/// its id had not been seen and now is, the data fit under the limit, and the message cache
/// holds the id, with exactly that topic and data where the id is new to it; so a reported
/// success is never a publication that did not happen.
pub proof fn lemma_successful_publication(
    before: Behaviour<IdentityTransform, AllowAllSubscriptionFilter>,
    after: Behaviour<IdentityTransform, AllowAllSubscriptionFilter>,
    topic: Seq<char>,
    data: Seq<u8>,
    id: Vec<u8>,
)
    requires
        publication(before, after, topic, data, Ok(id)),
    ensures
        !seen_message_ids(before).contains(id@),
        seen_message_ids(after).contains(id@),
        seen_message_ids(after) != seen_message_ids(before),
        data.len() < transmit_limit(before),
        cached_messages(after).contains_key(id@),
        !cached_messages(before).contains_key(id@) ==> cached_messages(after)[id@] == (topic, data),
{
}

/// A message sent to one peer goes to that peer only: where the message id is new to the
/// message cache, the message it holds is on the addressee's topic and on no other peer's
/// topic, the sender's own included.
pub proof fn lemma_sent_message_is_on_addressee_topic(
    before: Behaviour<IdentityTransform, AllowAllSubscriptionFilter>,
    after: Behaviour<IdentityTransform, AllowAllSubscriptionFilter>,
    addressee: Seq<u8>,
    other: Seq<u8>,
    data: Seq<u8>,
    id: Vec<u8>,
)
    requires
        addressee.len() == 32,
        other.len() == 32,
        addressee != other,
        publication(before, after, address_topic(addressee), data, Ok(id)),
        !cached_messages(before).contains_key(id@),
    ensures
        cached_messages(after)[id@].0 == address_topic(addressee),
        cached_messages(after)[id@].0 != address_topic(other),
{
    crate::messages::lemma_address_topics_distinct(addressee, other);
}

} // verus!

//! Messages that can be sent using Gossipsub: the envelope a received message is
//! delivered in, the pub/sub topic of a message and its hash, and the identifier
//! that gossipsub gives a message.
use vstd::prelude::*;
use vstd::string::*;

use crate::encoding::{base64url_encoding, lemma_base64url_injective, lemma_base64url_length};
use crate::text::{
    all_digits, decimal, decimal_value, lemma_decimal_injective, lemma_decimal_reads_back,
    push_decimal,
};
use crate::PublicAddress;

verus! {

/// The arbitrary user-defined data that is being transmitted within the network.
pub type Message = Vec<u8>;

/// Calls `base64url::encode`. Trusted to return the RFC 4648 URL-safe Base64 text of the
/// bytes without padding, as the crate documents it (`alphabet::URL_SAFE`, `NO_PAD`).
#[verifier::external_body]
fn base64url_encode(bytes: &[u8]) -> (text: String)
    ensures
        text@ == base64url_encoding(bytes@),
{
    base64url::encode(bytes)
}

/// Calls `IdentTopic::new(topic).hash()` of `libp2p::gossipsub`. Trusted to return the topic
/// string itself, as `IdentityHash` in the crate's source does (`TopicHash::from_raw`).
#[verifier::external_body]
fn ident_topic_hash(topic: &str) -> (hash: String)
    ensures
        hash@ == topic@,
{
    libp2p::gossipsub::IdentTopic::new(topic).hash().into_string()
}

/// Envelope encapsulates the message received from the p2p network with the network
/// information such as sender address.
#[derive(Clone, Debug)]
pub struct Envelope {
    /// The origin of the received message
    pub origin: PublicAddress,
    /// The message encapsulated
    pub message: Message,
}

/// The topic of a gossipsub message in the network: an identity-hashed topic name.
#[derive(Debug)]
pub struct NetworkTopic {
    name: String,
}

impl View for NetworkTopic {
    type V = Seq<char>;

    closed spec fn view(&self) -> Seq<char> {
        self.name@
    }
}

/// Hash of a network message topic.
#[derive(Debug)]
pub struct NetworkTopicHash {
    hash: String,
}

impl View for NetworkTopicHash {
    type V = Seq<char>;

    closed spec fn view(&self) -> Seq<char> {
        self.hash@
    }
}

/// The name of the topic on which the peer with public address `address` receives
/// the messages sent to it.
pub open spec fn address_topic(address: Seq<u8>) -> Seq<char> {
    base64url_encoding(address)
}

/// Each peer address gets its own topic: distinct public addresses have distinct topics,
/// each a name of 43 characters.
pub proof fn lemma_address_topics_distinct(a: Seq<u8>, b: Seq<u8>)
    requires
        a.len() == 32,
        b.len() == 32,
        a != b,
    ensures
        address_topic(a) != address_topic(b),
        address_topic(a).len() == 43,
{
    lemma_base64url_length(a);
    if address_topic(a) == address_topic(b) {
        lemma_base64url_injective(a, b);
    }
}

impl NetworkTopic {
    /// The topic with the given name.
    pub fn new(topic: String) -> (t: NetworkTopic)
        ensures
            t@ == topic@,
    {
        NetworkTopic { name: topic }
    }

    /// The topic that uses the Base64url encoded public address as its name: the topic
    /// of the messages sent to the peer of that address.
    pub fn from_address(address: PublicAddress) -> (t: NetworkTopic)
        ensures
            t@ == address_topic(address@),
    {
        NetworkTopic { name: base64url_encode(address.as_slice()) }
    }

    /// The topic's name.
    pub fn name(&self) -> (name: &str)
        ensures
            name@ == self@,
    {
        self.name.as_str()
    }

    /// The hash of the topic: with identity hashing, its name.
    pub fn hash(&self) -> (h: NetworkTopicHash)
        ensures
            h@ == self@,
    {
        NetworkTopicHash { hash: ident_topic_hash(self.name.as_str()) }
    }
}

impl NetworkTopicHash {
    /// The hash of a topic, as a gossipsub message carries it.
    pub fn from_raw(hash: String) -> (h: NetworkTopicHash)
        ensures
            h@ == hash@,
    {
        NetworkTopicHash { hash }
    }

    /// Whether this is the hash `name`.
    pub fn is_hash_of(&self, name: &String) -> (b: bool)
        ensures
            b == (self@ == name@),
    {
        self.hash.eq(name)
    }

    /// The hash as a string.
    pub fn as_str(&self) -> (s: &str)
        ensures
            s@ == self@,
    {
        self.hash.as_str()
    }
}

/// The identifier gossipsub gives a message: its topic, then the Base64url encoding of
/// the bytes of its source peer id (or `none`), then its sequence number in decimal
/// (0 where it has none).
pub open spec fn message_id_text(
    topic: Seq<char>,
    source: Option<Seq<u8>>,
    sequence_number: Option<u64>,
) -> Seq<char> {
    let source_text = match source {
        Some(s) => base64url_encoding(s),
        None => "none"@,
    };
    let number = match sequence_number {
        Some(n) => n,
        None => 0u64,
    };
    topic + source_text + decimal(number as nat)
}

/// The text that stands for the source of a message in its id: the Base64url encoding of
/// its peer id bytes, or `none`.
pub open spec fn source_text(source: Option<Seq<u8>>) -> Seq<char> {
    match source {
        Some(s) => base64url_encoding(s),
        None => "none"@,
    }
}

/// The identifier of a gossipsub message with the given topic hash, source peer id bytes
/// and sequence number. After the topic and the text of the source, it holds nothing but
/// decimal digits, and these read back as the whole sequence number (0 where there is
/// none).
pub fn message_id(topic: &str, source: Option<&[u8]>, sequence_number: Option<u64>) -> (id: String)
    ensures
        id@ == message_id_text(
            topic@,
            match source {
                Some(s) => Some(s@),
                None => None,
            },
            sequence_number,
        ),
        ({
            let prefix = topic@ + source_text(
                match source {
                    Some(s) => Some(s@),
                    None => None,
                },
            );
            let number: u64 = match sequence_number {
                Some(n) => n,
                None => 0u64,
            };
            &&& id@.take(prefix.len() as int) == prefix
            &&& all_digits(id@.skip(prefix.len() as int))
            &&& decimal_value(id@.skip(prefix.len() as int)) == number as nat
        }),
{
    proof {
        reveal_strlit("none");
        let number: u64 = match sequence_number {
            Some(n) => n,
            None => 0u64,
        };
        lemma_decimal_reads_back(number as nat);
        let src = match source {
            Some(s) => Some(s@),
            None => None,
        };
        let prefix = topic@ + source_text(src);
        let whole = message_id_text(topic@, src, sequence_number);
        assert(whole == prefix + decimal(number as nat));
        assert(whole.take(prefix.len() as int) =~= prefix);
        assert(whole.skip(prefix.len() as int) =~= decimal(number as nat));
    }
    let mut id = String::from_str(topic);
    match source {
        Some(s) => {
            let encoded = base64url_encode(s);
            id.append(encoded.as_str());
        },
        None => {
            proof { reveal_strlit("none"); }
            id.append("none");
        },
    }
    let number = match sequence_number {
        Some(n) => n,
        None => 0u64,
    };
    push_decimal(&mut id, number);
    id
}

/// A message id tells its sequence number: two messages of one topic and one source whose
/// ids are equal have equal sequence numbers.
pub proof fn lemma_message_id_determines_number(
    topic: Seq<char>,
    source: Option<Seq<u8>>,
    n1: u64,
    n2: u64,
)
    requires
        message_id_text(topic, source, Some(n1)) == message_id_text(topic, source, Some(n2)),
    ensures
        n1 == n2,
{
    let prefix = topic + source_text(source);
    let a = message_id_text(topic, source, Some(n1));
    let b = message_id_text(topic, source, Some(n2));
    assert(a == prefix + decimal(n1 as nat));
    assert(b == prefix + decimal(n2 as nat));
    assert(a.skip(prefix.len() as int) =~= decimal(n1 as nat));
    assert(b.skip(prefix.len() as int) =~= decimal(n2 as nat));
    lemma_decimal_injective(n1 as nat, n2 as nat);
}

} // verus!

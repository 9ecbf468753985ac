# lynk

A generalized libp2p network peer (Kademlia, Gossipsub, Identify, Ping, AutoNAT,
relay client and DCUtR over TCP with Noise and Yamux), whose decisions are verified
with Verus.

- `src/` is the verified library:
  - `text`: decimal rendering of integers;
  - `encoding`: the Base64url text of bytes, and the proof that it can be read back;
  - `messages`: envelopes, network topics and their hashes, gossipsub message ids;
  - `gates`: the dispatch of a received message along a chain of message gates, with
    the proof that it asks the gates in order and stops at the first that ends the flow;
  - `gossip`: subscribing to topics, checking a topic, publishing, over the set of
    subscribed topics of a gossipsub behaviour;
  - `identity`: public addresses, protobuf-encoded keys and peer ids;
  - `utilities`: multiaddresses of IPv4/TCP endpoints;
  - `peer`: the peers that bootstrap the network;
  - `network`: the commands of the application;
  - `engine`: what the network task does with a command or a gossip message, and the
    settings of the network behaviour.
- `app/` builds the swarm, runs the network task and the asynchronous message gates,
  and hands each decision to the library.
- `tests/` exercises the library against the real libp2p crates.

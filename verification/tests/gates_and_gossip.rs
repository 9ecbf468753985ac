use libp2p::gossipsub::{Behaviour, Config, MessageAuthenticity};
use libp2p::identity::Keypair;
use lynk::engine::{behaviour_config, handle_command, handle_gossip_message, new_gossip, CommandOutcome};
use lynk::gates::{GateAction, GateDispatch};
use lynk::gossip::{broadcast, is_subscribed, send_to, subscribe, Gossip, PublishFailure};
use lynk::identity::peer_id_of_address;
use lynk::messages::{NetworkTopic, NetworkTopicHash};
use lynk::network::SendCommand;

fn run_chain(can: &[bool], proceed: &[bool]) -> Vec<GateAction> {
    let mut dispatch = GateDispatch::start(can.len());
    let mut calls = Vec::new();
    loop {
        let action = dispatch.action();
        calls.push(action);
        match action {
            GateAction::AskCanProceed(i) => dispatch.on_answer(can[i]),
            GateAction::Proceed(i) => dispatch.on_answer(proceed[i]),
            GateAction::Finish => break,
        }
    }
    calls
}

fn gossip() -> Gossip {
    Behaviour::new(MessageAuthenticity::Signed(Keypair::generate_ed25519()), Config::default())
        .unwrap()
}

fn ed25519_address() -> [u8; 32] {
    Keypair::generate_ed25519().public().try_into_ed25519().unwrap().to_bytes()
}

#[test]
fn empty_chain_finishes_at_once() {
    assert!(run_chain(&[], &[]) == vec![GateAction::Finish]);
}

#[test]
fn chain_stops_at_terminating_gate() {
    let calls = run_chain(&[false, true, true, true], &[false, false, true, false]);
    let expected = vec![
        GateAction::AskCanProceed(0),
        GateAction::AskCanProceed(1),
        GateAction::Proceed(1),
        GateAction::AskCanProceed(2),
        GateAction::Proceed(2),
        GateAction::Finish,
    ];
    assert!(calls == expected);
}

#[test]
fn chain_passes_message_through_all_gates() {
    let calls = run_chain(&[true, false, true], &[false, true, false]);
    let expected = vec![
        GateAction::AskCanProceed(0),
        GateAction::Proceed(0),
        GateAction::AskCanProceed(1),
        GateAction::AskCanProceed(2),
        GateAction::Proceed(2),
        GateAction::Finish,
    ];
    assert!(calls == expected);
}

#[test]
fn finished_dispatch_stays_finished() {
    let mut dispatch = GateDispatch::start(1);
    dispatch.on_answer(true);
    dispatch.on_answer(true);
    assert!(dispatch.action() == GateAction::Finish);
    dispatch.on_answer(false);
    assert!(dispatch.action() == GateAction::Finish);
}

#[test]
fn subscribed_topics_are_recognised() {
    let mut gossip = gossip();
    let topics = vec![NetworkTopic::new("a".to_string()), NetworkTopic::new("b".to_string())];
    assert!(subscribe(&mut gossip, topics).is_ok());
    assert!(is_subscribed(&gossip, &NetworkTopicHash::from_raw("a".to_string())));
    assert!(is_subscribed(&gossip, &NetworkTopicHash::from_raw("b".to_string())));
    assert!(!is_subscribed(&gossip, &NetworkTopicHash::from_raw("c".to_string())));
    assert!(subscribe(&mut gossip, vec![NetworkTopic::new("a".to_string())]).is_ok());
    assert_eq!(gossip.topics().count(), 2);
}

#[test]
fn nothing_subscribed_at_first() {
    let gossip = gossip();
    assert!(!is_subscribed(&gossip, &NetworkTopicHash::from_raw("a".to_string())));
}

#[test]
fn publishing_without_peers_fails_and_keeps_subscriptions() {
    let mut gossip = gossip();
    subscribe(&mut gossip, vec![NetworkTopic::new("x".to_string())]).unwrap();
    let sent = send_to(&mut gossip, [7u8; 32], vec![1, 2, 3]);
    assert!(matches!(sent, Err(PublishFailure::InsufficientPeers)));
    let topic = NetworkTopic::new("x".to_string());
    let broadcast = broadcast(&mut gossip, &topic, vec![4]);
    assert!(matches!(broadcast, Err(PublishFailure::InsufficientPeers)));
    assert!(is_subscribed(&gossip, &NetworkTopicHash::from_raw("x".to_string())));
}

#[test]
fn command_to_self_is_delivered_locally() {
    let mut gossip = gossip();
    let local = ed25519_address();
    let outcome = handle_command(&mut gossip, local, SendCommand::SendTo(local, vec![9, 9]));
    match outcome {
        CommandOutcome::Deliver(delivery) => {
            assert_eq!(delivery.topic_hash.as_str(), base64url::encode(local));
            assert_eq!(delivery.envelope.origin, local);
            assert_eq!(delivery.envelope.message, vec![9, 9]);
        },
        _ => panic!("expected a local delivery"),
    }
}

#[test]
fn command_to_other_peer_is_published() {
    let mut gossip = gossip();
    let local = ed25519_address();
    let outcome = handle_command(&mut gossip, local, SendCommand::SendTo([3u8; 32], vec![1]));
    assert!(matches!(outcome, CommandOutcome::Sent(Err(PublishFailure::InsufficientPeers))));
    let topic = NetworkTopic::new("news".to_string());
    let outcome = handle_command(&mut gossip, local, SendCommand::Broadcast(topic, vec![1]));
    assert!(matches!(outcome, CommandOutcome::Broadcast(Err(PublishFailure::InsufficientPeers))));
}

#[test]
fn gossip_message_on_subscribed_topic_is_delivered() {
    let mut gossip = gossip();
    subscribe(&mut gossip, vec![NetworkTopic::new("news".to_string())]).unwrap();
    let sender = ed25519_address();
    let source = peer_id_of_address(&sender).unwrap();
    let delivery = handle_gossip_message(
        &gossip,
        [1u8; 32],
        Some(source),
        NetworkTopicHash::from_raw("news".to_string()),
        vec![5, 6],
    )
    .unwrap();
    assert_eq!(delivery.envelope.origin, sender);
    assert_eq!(delivery.envelope.message, vec![5, 6]);
    assert_eq!(delivery.topic_hash.as_str(), "news");
}

#[test]
fn gossip_message_is_dropped_otherwise() {
    let mut gossip = gossip();
    subscribe(&mut gossip, vec![NetworkTopic::new("news".to_string())]).unwrap();
    let source = peer_id_of_address(&ed25519_address()).unwrap();
    let other_topic = handle_gossip_message(
        &gossip,
        [1u8; 32],
        Some(source.clone()),
        NetworkTopicHash::from_raw("other".to_string()),
        vec![1],
    );
    assert!(other_topic.is_none());
    let anonymous = handle_gossip_message(
        &gossip,
        [1u8; 32],
        None,
        NetworkTopicHash::from_raw("news".to_string()),
        vec![1],
    );
    assert!(anonymous.is_none());
}

#[test]
fn gossip_message_from_hashed_peer_id_names_local_address() {
    let mut gossip = gossip();
    subscribe(&mut gossip, vec![NetworkTopic::new("news".to_string())]).unwrap();
    let delivery = handle_gossip_message(
        &gossip,
        [1u8; 32],
        Some(libp2p::PeerId::random().to_bytes()),
        NetworkTopicHash::from_raw("news".to_string()),
        vec![1],
    )
    .unwrap();
    assert_eq!(delivery.envelope.origin, [1u8; 32]);
    assert_eq!(delivery.envelope.message, vec![1]);
}

#[test]
fn appended_gate_is_reached_only_without_termination() {
    let calls = run_chain(&[true, false, true], &[false, false, false]);
    let expected = vec![
        GateAction::AskCanProceed(0),
        GateAction::Proceed(0),
        GateAction::AskCanProceed(1),
        GateAction::AskCanProceed(2),
        GateAction::Proceed(2),
        GateAction::Finish,
    ];
    assert!(calls == expected);
    let calls = run_chain(&[true, true], &[true, false]);
    assert!(calls == vec![GateAction::AskCanProceed(0), GateAction::Proceed(0), GateAction::Finish]);
}

#[test]
fn new_peer_gossip_is_subscribed_to_its_own_topic_only() {
    let keypair = Keypair::generate_ed25519();
    let address = keypair.public().try_into_ed25519().unwrap().to_bytes();
    let settings = behaviour_config(address, 10);
    let created = new_gossip(&keypair, &settings);
    let own = NetworkTopic::from_address(address).hash();
    assert!(is_subscribed(&created.gossip, &own));
    assert!(!is_subscribed(&created.gossip, &NetworkTopicHash::from_raw("txs".to_string())));
    assert_eq!(created.gossip.topics().count(), 1);
    assert_eq!(created.publisher, keypair.public().to_peer_id().to_bytes());
}

#[test]
fn new_peer_gossip_publishes_nothing_without_peers() {
    let keypair = Keypair::generate_ed25519();
    let address = keypair.public().try_into_ed25519().unwrap().to_bytes();
    let mut gossip = new_gossip(&keypair, &behaviour_config(address, 10)).gossip;
    let sent = broadcast(&mut gossip, &NetworkTopic::new("blocks".to_string()), vec![1]);
    assert!(matches!(sent, Err(PublishFailure::InsufficientPeers)));
    let sent = send_to(&mut gossip, address, vec![1]);
    assert!(matches!(sent, Err(PublishFailure::InsufficientPeers)));
}

#[test]
fn oversized_message_is_too_large() {
    let keypair = Keypair::generate_ed25519();
    let address = keypair.public().try_into_ed25519().unwrap().to_bytes();
    let mut gossip = new_gossip(&keypair, &behaviour_config(address, 10)).gossip;
    let data = vec![0u8; 4 * 1024 * 1024 + 1];
    let sent = broadcast(&mut gossip, &NetworkTopic::new("t".to_string()), data);
    assert!(matches!(sent, Err(PublishFailure::MessageTooLarge)));
}

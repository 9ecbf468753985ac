use lynk::messages::{message_id, NetworkTopic, NetworkTopicHash};
use lynk::text::u64_to_decimal;

#[test]
fn decimal_of_zero() {
    assert_eq!(u64_to_decimal(0), "0");
}

#[test]
fn decimal_of_numbers() {
    assert_eq!(u64_to_decimal(7), "7");
    assert_eq!(u64_to_decimal(10), "10");
    assert_eq!(u64_to_decimal(1234567890), "1234567890");
    assert_eq!(u64_to_decimal(u64::MAX), u64::MAX.to_string());
}

#[test]
fn topic_of_name() {
    let topic = NetworkTopic::new("blocks".to_string());
    assert_eq!(topic.name(), "blocks");
    assert_eq!(topic.hash().as_str(), "blocks");
}

#[test]
fn topic_of_address_is_base64url() {
    let topic = NetworkTopic::from_address([0u8; 32]);
    assert_eq!(topic.name(), "AAAAAAAAAAAAAAAAAAAAAAAAAAAAAAAAAAAAAAAAAAA");
    let mut address = [0u8; 32];
    address[31] = 0xff;
    address[30] = 0xfb;
    let topic = NetworkTopic::from_address(address);
    assert_eq!(topic.name(), base64url::encode(address));
    assert!(topic.name().ends_with("-_8"));
    assert_eq!(topic.hash().as_str(), topic.name());
}

#[test]
fn topic_hash_comparison() {
    let hash = NetworkTopicHash::from_raw("abc".to_string());
    assert!(hash.is_hash_of(&"abc".to_string()));
    assert!(!hash.is_hash_of(&"abd".to_string()));
}

#[test]
fn message_id_with_source() {
    let id = message_id("topic", Some(&[1u8, 2, 3][..]), Some(42));
    assert_eq!(id, "topicAQID42");
}

#[test]
fn message_id_without_source_or_number() {
    assert_eq!(message_id("t", None, None), "tnone0");
    assert_eq!(message_id("", None, Some(9)), "none9");
}

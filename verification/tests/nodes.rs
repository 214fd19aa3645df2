//! Node behaviour: sender path construction, relay forwarding, receiver
//! delivery, and the drop rules for hostile or misdirected packets.
use hornet_onion::node::{sentinel_descriptor_bytes, Node, NodeType};
use hornet_onion::onion_layer::OnionLayer;
use hornet_onion::srh::SRv6Header;
use hornet_onion::Error;

fn sid(last: u8) -> Vec<u8> {
    let mut v = vec![0x20, 0x01, 0x0d, 0xb8, 0, 0, 0, 0, 0, 0, 0, 0, 0, 0, 0];
    v.push(last);
    v
}

fn relay_with_keys(local_sid: Vec<u8>, session_id: u32, key: Vec<u8>) -> Node {
    let mut node = Node::new(NodeType::Relay(local_sid));
    node.set_session_key(session_id, key);
    node.set_mac_key(session_id, vec![0x55u8; 32]);
    node
}

#[test]
fn length_mismatch_rejected_before_any_work() {
    let path = vec![sid(1), sid(2), sid(3)];
    let descriptors = vec![
        b"[::1]:9001".to_vec(),
        b"[::1]:9002".to_vec(),
        b"[::1]:9003".to_vec(),
        b"[::1]:9004".to_vec(),
    ];
    let keys = vec![vec![1u8; 32], vec![2u8; 32]];
    let message = b"unsent".to_vec();
    let r = Node::send_message(7, path, &descriptors, &keys, &message);
    assert!(matches!(r, Err(Error::ProtocolError)));
}

#[test]
fn end_to_end_three_relays() {
    let session_id = 7u32;
    let message = b"Hello, HORNET Onion Routing!".to_vec();
    let path = vec![sid(1), sid(2), sid(3)];
    let descriptors = vec![
        b"[::1]:9001".to_vec(),
        b"[::1]:9002".to_vec(),
        b"[::1]:9003".to_vec(),
        b"[::1]:9004".to_vec(),
    ];
    let keys = vec![vec![1u8; 32], vec![2u8; 32], vec![3u8; 32]];
    let nonce_base = vec![0x77u8; 12];
    let packet = Node::build_message_packet(
        session_id,
        path,
        &descriptors,
        &keys,
        &message,
        &nonce_base,
    )
    .unwrap();

    let relay1 = relay_with_keys(sid(1), session_id, keys[0].clone());
    let relay2 = relay_with_keys(sid(2), session_id, keys[1].clone());
    let relay3 = relay_with_keys(sid(3), session_id, keys[2].clone());

    let header = SRv6Header::from_bytes(&packet).unwrap();
    assert_eq!(header.segments_left, 2);
    assert_eq!(header.get_current_sid(), Some(sid(1)));

    let (packet, next_hop) = relay1.process_relay_packet(&packet).unwrap();
    assert_eq!(next_hop, descriptors[1]);
    let header = SRv6Header::from_bytes(&packet).unwrap();
    assert_eq!(header.segments_left, 1);
    assert_eq!(header.get_current_sid(), Some(sid(2)));

    let (packet, next_hop) = relay2.process_relay_packet(&packet).unwrap();
    assert_eq!(next_hop, descriptors[2]);
    let header = SRv6Header::from_bytes(&packet).unwrap();
    assert_eq!(header.segments_left, 0);
    assert_eq!(header.get_current_sid(), Some(sid(3)));

    let (packet, next_hop) = relay3.process_relay_packet(&packet).unwrap();
    // The terminal layer carries the sentinel descriptor instead of an
    // address: delivery, not forwarding.
    assert_eq!(next_hop, sentinel_descriptor_bytes());
    // After the last layer is peeled, the body following the two headers is
    // exactly the original message.
    let body_start = (8 + 3 * 16) + 52;
    assert_eq!(&packet[body_start..], &message[..]);
}

#[test]
fn receiver_delivers_payload() {
    let session_id = 9u32;
    let message = b"for the receiver".to_vec();
    let receiver_key = vec![4u8; 32];
    let path = vec![sid(8)];
    let descriptors = vec![b"[::1]:9001".to_vec(), b"[::1]:9005".to_vec()];
    let keys = vec![receiver_key.clone()];
    let nonce_base = vec![0x31u8; 12];
    let packet =
        Node::build_message_packet(session_id, path, &descriptors, &keys, &message, &nonce_base)
            .unwrap();

    let mut receiver = Node::new(NodeType::Receiver);
    receiver.set_session_key(session_id, receiver_key);
    receiver.set_mac_key(session_id, vec![0x66u8; 32]);
    let delivered = receiver.process_receiver_packet(&packet).unwrap();
    assert_eq!(delivered, message);
}

#[test]
fn unknown_session_dropped_by_relay() {
    let session_id = 7u32;
    let message = b"payload".to_vec();
    let keys = vec![vec![1u8; 32]];
    let packet = Node::build_message_packet(
        session_id,
        vec![sid(1)],
        &vec![b"[::1]:9001".to_vec(), b"[::1]:9002".to_vec()],
        &keys,
        &message,
        &vec![0u8; 12],
    )
    .unwrap();
    // The relay owns the right segment but was provisioned for a different
    // session only.
    let relay = relay_with_keys(sid(1), 8, vec![1u8; 32]);
    let first = relay.process_relay_packet(&packet);
    assert!(matches!(first, Err(Error::ProtocolError)));
    // Processing borrows the node immutably; a second attempt behaves the
    // same, and provisioning the session afterwards makes the same packet
    // pass.
    assert!(matches!(
        relay.process_relay_packet(&packet),
        Err(Error::ProtocolError)
    ));
    let mut relay = relay;
    relay.set_session_key(session_id, vec![1u8; 32]);
    relay.set_mac_key(session_id, vec![0x55u8; 32]);
    assert!(relay.process_relay_packet(&packet).is_ok());
}

#[test]
fn unknown_session_dropped_by_receiver() {
    let session_id = 12u32;
    let message = b"payload".to_vec();
    let keys = vec![vec![6u8; 32]];
    let packet = Node::build_message_packet(
        session_id,
        vec![sid(2)],
        &vec![b"[::1]:9001".to_vec(), b"[::1]:9002".to_vec()],
        &keys,
        &message,
        &vec![0u8; 12],
    )
    .unwrap();
    let receiver = Node::new(NodeType::Receiver);
    assert!(matches!(
        receiver.process_receiver_packet(&packet),
        Err(Error::ProtocolError)
    ));
}

#[test]
fn unsupported_version_dropped_by_relay() {
    let session_id = 11u32;
    let keys = vec![vec![3u8; 32]];
    let mut packet = Node::build_message_packet(
        session_id,
        vec![sid(1)],
        &vec![b"[::1]:9001".to_vec(), b"[::1]:9002".to_vec()],
        &keys,
        &b"m".to_vec(),
        &vec![0u8; 12],
    )
    .unwrap();
    // The onion header starts right after the one-segment routing header;
    // its first byte is the protocol version.
    let version_at = 8 + 16;
    assert_eq!(packet[version_at], 1);
    packet[version_at] = 2;
    let relay = relay_with_keys(sid(1), session_id, vec![3u8; 32]);
    assert!(matches!(
        relay.process_relay_packet(&packet),
        Err(Error::ProtocolError)
    ));
}

#[test]
fn unsupported_version_dropped_by_receiver() {
    let session_id = 13u32;
    let keys = vec![vec![5u8; 32]];
    let mut packet = Node::build_message_packet(
        session_id,
        vec![sid(2)],
        &vec![b"[::1]:9001".to_vec(), b"[::1]:9002".to_vec()],
        &keys,
        &b"m".to_vec(),
        &vec![0u8; 12],
    )
    .unwrap();
    let version_at = 8 + 16;
    packet[version_at] = 0;
    let mut receiver = Node::new(NodeType::Receiver);
    receiver.set_session_key(session_id, vec![5u8; 32]);
    receiver.set_mac_key(session_id, vec![0x66u8; 32]);
    assert!(matches!(
        receiver.process_receiver_packet(&packet),
        Err(Error::ProtocolError)
    ));
}

#[test]
fn missing_mac_key_dropped_by_relay() {
    let session_id = 3u32;
    let keys = vec![vec![2u8; 32]];
    let packet = Node::build_message_packet(
        session_id,
        vec![sid(1)],
        &vec![b"[::1]:9001".to_vec(), b"[::1]:9002".to_vec()],
        &keys,
        &b"m".to_vec(),
        &vec![0u8; 12],
    )
    .unwrap();
    let mut relay = Node::new(NodeType::Relay(sid(1)));
    relay.set_session_key(session_id, vec![2u8; 32]);
    assert!(matches!(
        relay.process_relay_packet(&packet),
        Err(Error::ProtocolError)
    ));
}

#[test]
fn wrong_destination_dropped_by_relay() {
    let session_id = 5u32;
    let keys = vec![vec![1u8; 32]];
    let packet = Node::build_message_packet(
        session_id,
        vec![sid(1)],
        &vec![b"[::1]:9001".to_vec(), b"[::1]:9002".to_vec()],
        &keys,
        &b"m".to_vec(),
        &vec![0u8; 12],
    )
    .unwrap();
    let relay = relay_with_keys(sid(2), session_id, vec![1u8; 32]);
    assert!(matches!(
        relay.process_relay_packet(&packet),
        Err(Error::ProtocolError)
    ));
}

#[test]
fn non_relay_refuses_relay_processing() {
    let session_id = 5u32;
    let keys = vec![vec![1u8; 32]];
    let packet = Node::build_message_packet(
        session_id,
        vec![sid(1)],
        &vec![b"[::1]:9001".to_vec(), b"[::1]:9002".to_vec()],
        &keys,
        &b"m".to_vec(),
        &vec![0u8; 12],
    )
    .unwrap();
    let sender = Node::new(NodeType::Sender);
    assert!(matches!(
        sender.process_relay_packet(&packet),
        Err(Error::ProtocolError)
    ));
}

#[test]
fn tampered_packet_dropped_by_relay() {
    let session_id = 6u32;
    let keys = vec![vec![9u8; 32]];
    let packet = Node::build_message_packet(
        session_id,
        vec![sid(1)],
        &vec![b"[::1]:9001".to_vec(), b"[::1]:9002".to_vec()],
        &keys,
        &b"payload".to_vec(),
        &vec![0u8; 12],
    )
    .unwrap();
    let relay = relay_with_keys(sid(1), session_id, vec![9u8; 32]);
    let mut tampered = packet.clone();
    let last = tampered.len() - 1;
    tampered[last] ^= 0x01;
    assert!(matches!(
        relay.process_relay_packet(&tampered),
        Err(Error::CryptoError)
    ));
}

#[test]
fn send_message_builds_forwardable_packet() {
    let session_id = 21u32;
    let message = b"random nonce each send".to_vec();
    let keys = vec![vec![8u8; 32]];
    let packet = Node::send_message(
        session_id,
        vec![sid(4)],
        &vec![b"[::1]:9001".to_vec(), b"[::1]:9002".to_vec()],
        &keys,
        &message,
    )
    .unwrap();
    let relay = relay_with_keys(sid(4), session_id, vec![8u8; 32]);
    let (_, next_hop) = relay.process_relay_packet(&packet).unwrap();
    assert_eq!(next_hop, sentinel_descriptor_bytes());
}

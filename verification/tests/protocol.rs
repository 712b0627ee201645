use mesh_wire::codec::{DecodeError, EncodeError};
use mesh_wire::message::protocol::{ExchangeFlags, ProtocolMessage};

fn ack_message() -> ProtocolMessage {
    ProtocolMessage {
        exchange_flags: ExchangeFlags(0b0000_0011), // I and A set
        protocol_opcode: 0x05,
        exchange_id: 0x0010,
        protocol_id: 0x0001,
        protocol_vendor_id: None,
        acknowledged_message_counter: Some(0xDEAD_BEEF),
        secured_extensions: None,
        payload: None,
    }
}

#[test]
fn ack_counter_present_with_a_bit() {
    let msg = ack_message();
    let bytes = msg.encode().unwrap();
    let expected: Vec<u8> = vec![
        0x03, // exchange flags: initiator, acknowledgment
        0x05, // opcode
        0x10, 0x00, // exchange id
        0x01, 0x00, // protocol id
        0xEF, 0xBE, 0xAD, 0xDE, // acknowledged counter
    ];
    assert_eq!(bytes, expected);
    let decoded = ProtocolMessage::decode(&bytes).unwrap();
    assert_eq!(decoded.acknowledged_message_counter, Some(0xDEAD_BEEF));
    assert_eq!(decoded.payload, None);
    assert_eq!(decoded, msg);
}

#[test]
fn trailing_bytes_are_payload_when_a_bit_clear() {
    // the same four trailing bytes, but with the A bit clear: they must be
    // read as payload, never as a counter
    let bytes: Vec<u8> = vec![0x01, 0x05, 0x10, 0x00, 0x01, 0x00, 0xEF, 0xBE, 0xAD, 0xDE];
    let decoded = ProtocolMessage::decode(&bytes).unwrap();
    assert_eq!(decoded.acknowledged_message_counter, None);
    assert_eq!(decoded.payload, Some(vec![0xEF, 0xBE, 0xAD, 0xDE]));
}

#[test]
fn round_trip_with_every_optional_field() {
    let msg = ProtocolMessage {
        exchange_flags: ExchangeFlags(0b0001_1110), // A, R, SX, V set
        protocol_opcode: 0x20,
        exchange_id: 0xAABB,
        protocol_id: 0xCCDD,
        protocol_vendor_id: Some(0xFFF1),
        acknowledged_message_counter: Some(7),
        secured_extensions: Some(vec![9, 8, 7]),
        payload: Some(vec![1, 2, 3, 4, 5]),
    };
    let bytes = msg.encode().unwrap();
    let decoded = ProtocolMessage::decode(&bytes).unwrap();
    assert_eq!(decoded, msg);
}

#[test]
fn vendor_id_sits_before_ack_counter() {
    let msg = ProtocolMessage {
        exchange_flags: ExchangeFlags(0b0001_0010), // A and V set
        protocol_opcode: 1,
        exchange_id: 2,
        protocol_id: 3,
        protocol_vendor_id: Some(0x1234),
        acknowledged_message_counter: Some(0x5678_9ABC),
        secured_extensions: None,
        payload: None,
    };
    let bytes = msg.encode().unwrap();
    assert_eq!(
        bytes,
        vec![0x12, 0x01, 0x02, 0x00, 0x03, 0x00, 0x34, 0x12, 0xBC, 0x9A, 0x78, 0x56]
    );
}

#[test]
fn empty_payload_is_absent_after_decode() {
    let msg = ProtocolMessage {
        exchange_flags: ExchangeFlags(0),
        protocol_opcode: 0,
        exchange_id: 0,
        protocol_id: 0,
        protocol_vendor_id: None,
        acknowledged_message_counter: None,
        secured_extensions: None,
        payload: Some(vec![]),
    };
    // an empty payload occupies no bytes, so decode reads it as absent
    let bytes = msg.encode().unwrap();
    assert_eq!(bytes.len(), 6);
    let decoded = ProtocolMessage::decode(&bytes).unwrap();
    assert_eq!(decoded.payload, None);
}

#[test]
fn protocol_truncation_fails_at_every_cut() {
    let msg = ProtocolMessage {
        exchange_flags: ExchangeFlags(0b0001_1010), // A, SX, V set
        protocol_opcode: 9,
        exchange_id: 1,
        protocol_id: 2,
        protocol_vendor_id: Some(3),
        acknowledged_message_counter: Some(4),
        secured_extensions: Some(vec![1, 2]),
        payload: None,
    };
    let bytes = msg.encode().unwrap();
    for n in 0..bytes.len() {
        assert_eq!(
            ProtocolMessage::decode(&bytes[..n]),
            Err(DecodeError::TruncatedInput),
            "cut at {n}"
        );
    }
}

#[test]
fn protocol_encode_rejects_presence_mismatch() {
    let mut msg = ack_message();
    msg.acknowledged_message_counter = None; // the A bit stays set
    assert_eq!(msg.encode(), Err(EncodeError::FieldPresenceMismatch));
    let mut msg = ack_message();
    msg.protocol_vendor_id = Some(1); // the V bit stays clear
    assert_eq!(msg.encode(), Err(EncodeError::FieldPresenceMismatch));
}

#[test]
fn protocol_encode_rejects_oversized_extensions() {
    let mut msg = ack_message();
    msg.exchange_flags.set_sx(true);
    msg.secured_extensions = Some(vec![0u8; 0x1_0000]);
    assert_eq!(msg.encode(), Err(EncodeError::BlockTooLong));
}

use mesh_wire::codec::{DecodeError, EncodeError};
use mesh_wire::message::{
    DSIZ, DestinationNodeID, MessageFlags, MessageHeader, SecurityFlags, SessionType,
};

fn sample_header() -> MessageHeader {
    MessageHeader {
        message_length: None,
        message_flags: MessageFlags(0b0001_0110),
        session_id: 0x0042,
        security_flags: SecurityFlags(0b0000_0001),
        message_counter: 1,
        source_node_id: Some(0x1122_3344_5566_7788),
        dest_node_id: Some(DestinationNodeID::Group(0x00AB)),
        message_extensions: None,
    }
}

#[test]
fn example_scenario_group_destination() {
    let header = sample_header();
    let bytes = header.encode().unwrap();
    let expected: Vec<u8> = vec![
        0x16, // flags: version 1, S set, DSIZ 2 (group id)
        0x42, 0x00, // session id, little-endian
        0x01, // security flags: unicast session
        0x01, 0x00, 0x00, 0x00, // message counter
        0x88, 0x77, 0x66, 0x55, 0x44, 0x33, 0x22, 0x11, // source node id
        0xAB, 0x00, // destination group id
    ];
    assert_eq!(bytes, expected);

    let decoded = MessageHeader::decode(&bytes, false).unwrap();
    assert_eq!(decoded.message_flags.version(), 1);
    assert_eq!(decoded.source_node_id, Some(0x1122_3344_5566_7788));
    assert_eq!(decoded.dest_node_id, Some(DestinationNodeID::Group(0x00AB)));
    let again = decoded.encode().unwrap();
    assert_eq!(again, expected);
}

#[test]
fn round_trip_with_length_and_extensions() {
    let header = MessageHeader {
        message_length: Some(0x1234),
        message_flags: MessageFlags(0b0010_0101), // version 2, S, DSIZ node id
        session_id: 0xBEEF,
        security_flags: SecurityFlags(0b0010_0010), // MX set, session type 2
        message_counter: 0xCAFE_F00D,
        source_node_id: Some(7),
        dest_node_id: Some(DestinationNodeID::Node(0xFFFF_FFFF_FFFF_FFFF)),
        message_extensions: Some(vec![0xDE, 0xAD, 0xBE]),
    };
    let bytes = header.encode().unwrap();
    assert_eq!(&bytes[0..2], &[0x34, 0x12]); // stream length prefix
    let decoded = MessageHeader::decode(&bytes, true).unwrap();
    assert_eq!(decoded, header);
}

#[test]
fn round_trip_preserves_reserved_bits() {
    // bit 3 of the message flags and bits 4:2 of the security flags are
    // reserved; a header carrying them set must survive a round trip
    let header = MessageHeader {
        message_length: None,
        message_flags: MessageFlags(0b0000_1000),
        session_id: 0,
        security_flags: SecurityFlags(0b0001_1100),
        message_counter: 0,
        source_node_id: None,
        dest_node_id: None,
        message_extensions: None,
    };
    let bytes = header.encode().unwrap();
    let decoded = MessageHeader::decode(&bytes, false).unwrap();
    assert_eq!(decoded, header);
    assert_eq!(decoded.message_flags.0, 0b0000_1000);
    assert_eq!(decoded.security_flags.0, 0b0001_1100);
}

#[test]
fn decoded_bytes_reencode_identically_with_reserved_patterns() {
    // message flags carry the reserved DSIZ pattern 3 and the reserved bit 3;
    // security flags carry the non-canonical reserved session type 2.  The
    // header stores the flag bytes raw, so re-encoding is bit-exact — only
    // the enum values read from them are canonicalized.
    let bytes: Vec<u8> = vec![0b0011_1011, 0x34, 0x12, 0b0001_0110, 9, 0, 0, 0];
    let header = MessageHeader::decode(&bytes, false).unwrap();
    assert_eq!(header.message_flags.dsiz(), DSIZ::Reserved);
    assert_eq!(header.security_flags.session_type(), SessionType::Reserved);
    assert!(header.dest_node_id.is_none());
    assert_eq!(header.encode().unwrap(), bytes);
}

#[test]
fn presence_follows_flags_for_every_combination() {
    for dsiz_code in 0u8..4 {
        for s in [false, true] {
            for mx in [false, true] {
                let flags = (u8::from(s) << 2) | dsiz_code;
                let security = u8::from(mx) << 5;
                let header = MessageHeader {
                    message_length: None,
                    message_flags: MessageFlags(flags),
                    session_id: 9,
                    security_flags: SecurityFlags(security),
                    message_counter: 3,
                    source_node_id: if s { Some(0x0102_0304_0506_0708) } else { None },
                    dest_node_id: match dsiz_code {
                        1 => Some(DestinationNodeID::Node(11)),
                        2 => Some(DestinationNodeID::Group(12)),
                        _ => None,
                    },
                    message_extensions: if mx { Some(vec![1, 2, 3]) } else { None },
                };
                let bytes = header.encode().unwrap();
                let decoded = MessageHeader::decode(&bytes, false).unwrap();
                assert_eq!(decoded.source_node_id.is_some(), s);
                assert_eq!(decoded.message_extensions.is_some(), mx);
                match dsiz_code {
                    1 => assert!(matches!(
                        decoded.dest_node_id,
                        Some(DestinationNodeID::Node(_))
                    )),
                    2 => assert!(matches!(
                        decoded.dest_node_id,
                        Some(DestinationNodeID::Group(_))
                    )),
                    _ => assert!(decoded.dest_node_id.is_none()),
                }
                assert_eq!(decoded, header);
            }
        }
    }
}

#[test]
fn truncation_fails_at_every_cut() {
    let header = MessageHeader {
        message_length: Some(40),
        message_flags: MessageFlags(0b0000_0110), // S set, DSIZ group id
        session_id: 1,
        security_flags: SecurityFlags(0b0010_0000), // MX set
        message_counter: 2,
        source_node_id: Some(3),
        dest_node_id: Some(DestinationNodeID::Group(4)),
        message_extensions: Some(vec![5, 6, 7, 8]),
    };
    let bytes = header.encode().unwrap();
    // cuts land in the fixed fields, the source id, the group id, the
    // extensions length prefix and the extensions block in turn
    for n in 0..bytes.len() {
        assert_eq!(
            MessageHeader::decode(&bytes[..n], true),
            Err(DecodeError::TruncatedInput),
            "cut at {n}"
        );
    }
}

#[test]
fn trailing_bytes_are_rejected() {
    let mut bytes = sample_header().encode().unwrap();
    bytes.push(0x00);
    assert_eq!(
        MessageHeader::decode(&bytes, false),
        Err(DecodeError::TrailingBytes)
    );
}

#[test]
fn missing_length_prefix_is_truncation() {
    // seven bytes cannot even hold the fixed fields
    let bytes = vec![0u8; 7];
    assert_eq!(
        MessageHeader::decode(&bytes, false),
        Err(DecodeError::TruncatedInput)
    );
    // over a stream the same bytes also miss the two length bytes
    assert_eq!(
        MessageHeader::decode(&bytes, true),
        Err(DecodeError::TruncatedInput)
    );
}

#[test]
fn encode_rejects_source_presence_mismatch() {
    let mut header = sample_header();
    header.source_node_id = None; // the S bit stays set
    assert_eq!(header.encode(), Err(EncodeError::FieldPresenceMismatch));
    let mut header = sample_header();
    header.message_flags.set_s(false); // the source node id stays
    assert_eq!(header.encode(), Err(EncodeError::FieldPresenceMismatch));
}

#[test]
fn encode_rejects_destination_shape_mismatch() {
    let mut header = sample_header();
    header.dest_node_id = Some(DestinationNodeID::Node(1)); // DSIZ says group
    assert_eq!(header.encode(), Err(EncodeError::FieldPresenceMismatch));
    header.dest_node_id = None;
    assert_eq!(header.encode(), Err(EncodeError::FieldPresenceMismatch));
}

#[test]
fn encode_rejects_oversized_extensions() {
    let mut header = sample_header();
    header.security_flags.set_mx(true);
    header.message_extensions = Some(vec![0u8; 0x1_0000]);
    assert_eq!(header.encode(), Err(EncodeError::BlockTooLong));
    header.message_extensions = Some(vec![0u8; 0xFFFF]);
    assert!(header.encode().is_ok());
}

#[test]
fn extensions_block_is_length_prefixed() {
    let header = MessageHeader {
        message_length: None,
        message_flags: MessageFlags(0),
        session_id: 0,
        security_flags: SecurityFlags(0b0010_0000),
        message_counter: 0,
        source_node_id: None,
        dest_node_id: None,
        message_extensions: Some(vec![0xDE, 0xAD]),
    };
    let bytes = header.encode().unwrap();
    assert_eq!(&bytes[8..], &[0x02, 0x00, 0xDE, 0xAD]);
    let decoded = MessageHeader::decode(&bytes, false).unwrap();
    assert_eq!(decoded.message_extensions, Some(vec![0xDE, 0xAD]));
}

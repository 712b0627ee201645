//! The outer message envelope: bit-packed flag bytes, the destination-size
//! and session-type codes, the message header with its flag-driven optional
//! fields, and the assembly of header, encrypted payload and footer.

pub mod protocol;

use vstd::prelude::*;
use vstd::bytes::*;
use crate::codec::{
    DecodeError, EncodeError, append_block, append_bytes, append_u16_le, append_u32_le,
    append_u64_le, copy_range, read_block, read_u16_le, read_u32_le, read_u64_le,
    spec_block_bytes, spec_decode_block,
};

verus! {

// ---------------------------------------------------------------------------
// Bit-range views of the two header flag bytes.
//
// Bit 7 is the most significant bit.  Every accessor decodes one named bit
// or bit-range of the stored byte; every mutator rewrites only that range,
// so reserved bits round-trip unchanged.
// ---------------------------------------------------------------------------

/// The two low-order bits of a flag byte, shared by the DSIZ and
/// session-type ranges.
pub open spec fn low_two_bits(b: u8) -> u8 {
    b & 0x03
}

/// Message flags bit 2: a source node id is present in the header.
pub open spec fn source_id_flag(b: u8) -> bool {
    b & 0x04 != 0
}

/// Message flags bits 7:4: the protocol version, a 4-bit unsigned value.
pub open spec fn version_field(b: u8) -> u8 {
    (b >> 4) & 0x0F
}

/// Security flags bit 7: privacy.
pub open spec fn privacy_flag(b: u8) -> bool {
    b & 0x80 != 0
}

/// Security flags bit 6: control.
pub open spec fn control_flag(b: u8) -> bool {
    b & 0x40 != 0
}

/// Security flags bit 5: message extensions are present in the header.
pub open spec fn extensions_flag(b: u8) -> bool {
    b & 0x20 != 0
}

/// Indicates the size and meaning of the destination node id field of a
/// [`MessageHeader`].
#[derive(Clone, Copy, Debug, PartialEq, Eq, Structural)]
pub enum DSIZ {
    /// The destination node id field is not present.
    NotPresent,
    /// The destination node id is present as a 64-bit node id.
    NodeID,
    /// The destination node id is present as a 16-bit group id.
    GroupID,
    /// Reserved for future use.
    Reserved,
}

/// The destination-size code read from the two low-order bits of a byte.
/// Total: the unassigned pattern 3 reads as `Reserved`.
pub open spec fn spec_dsiz_of(b: u8) -> DSIZ {
    if low_two_bits(b) == 0 {
        DSIZ::NotPresent
    } else if low_two_bits(b) == 1 {
        DSIZ::NodeID
    } else if low_two_bits(b) == 2 {
        DSIZ::GroupID
    } else {
        DSIZ::Reserved
    }
}

/// The wire code of a destination-size value.  `Reserved` always encodes to
/// the designated catch-all slot 3.
pub open spec fn spec_dsiz_code(d: DSIZ) -> u8 {
    match d {
        DSIZ::NotPresent => 0,
        DSIZ::NodeID => 1,
        DSIZ::GroupID => 2,
        DSIZ::Reserved => 3,
    }
}

impl From<u8> for DSIZ {
    /// Decoding a destination-size code is total: every byte maps to a
    /// variant, unassigned patterns to `Reserved`.
    fn from(byte: u8) -> (r: DSIZ) {
        match byte & 0x03 {
            0 => DSIZ::NotPresent,
            1 => DSIZ::NodeID,
            2 => DSIZ::GroupID,
            _ => DSIZ::Reserved,
        }
    }
}

impl vstd::std_specs::convert::FromSpecImpl<u8> for DSIZ {
    open spec fn obeys_from_spec() -> bool {
        true
    }

    open spec fn from_spec(byte: u8) -> DSIZ {
        spec_dsiz_of(byte)
    }
}

impl From<DSIZ> for u8 {
    fn from(dsiz: DSIZ) -> (r: u8) {
        match dsiz {
            DSIZ::NotPresent => 0,
            DSIZ::NodeID => 1,
            DSIZ::GroupID => 2,
            DSIZ::Reserved => 3,
        }
    }
}

impl vstd::std_specs::convert::FromSpecImpl<DSIZ> for u8 {
    open spec fn obeys_from_spec() -> bool {
        true
    }

    open spec fn from_spec(dsiz: DSIZ) -> u8 {
        spec_dsiz_code(dsiz)
    }
}

/// Decoding any code a destination-size value encodes to gives the value
/// back; in particular the catch-all `Reserved` slot reads as `Reserved`.
pub proof fn lemma_dsiz_code_round_trip(d: DSIZ)
    ensures
        spec_dsiz_of(spec_dsiz_code(d)) == d,
{
    assert(0u8 & 0x03 == 0 && 1u8 & 0x03 == 1 && 2u8 & 0x03 == 2 && 3u8 & 0x03 == 3)
        by (bit_vector);
}

/// Identifies the session associated with a message.
pub type SessionID = u16;

/// The kind of session a message belongs to, read from the two low-order
/// bits of the security flags.
#[derive(Clone, Copy, Debug, PartialEq, Eq, Structural)]
pub enum SessionType {
    Unicast,
    Group,
    /// Reserved for future use.  Both unassigned wire patterns (2 and 3)
    /// decode to this variant, and it always re-encodes to 3, so a wire
    /// value of 2 does not round-trip bit-exactly.  That canonicalization
    /// is the wire format's convention, not a defect.
    Reserved,
}

/// The session type read from the two low-order bits of a byte.  Total:
/// both unassigned patterns read as `Reserved`.
pub open spec fn spec_session_type_of(b: u8) -> SessionType {
    if low_two_bits(b) == 0 {
        SessionType::Unicast
    } else if low_two_bits(b) == 1 {
        SessionType::Group
    } else {
        SessionType::Reserved
    }
}

/// The wire code of a session type.  `Reserved` always encodes to the
/// designated catch-all slot 3, never to 2.
pub open spec fn spec_session_type_code(t: SessionType) -> u8 {
    match t {
        SessionType::Unicast => 0,
        SessionType::Group => 1,
        SessionType::Reserved => 3,
    }
}

impl From<u8> for SessionType {
    /// Decoding a session type is total: every byte maps to a variant,
    /// patterns 2 and 3 both to `Reserved`.
    fn from(byte: u8) -> (r: SessionType) {
        match byte & 0x03 {
            0 => SessionType::Unicast,
            1 => SessionType::Group,
            _ => SessionType::Reserved,
        }
    }
}

impl vstd::std_specs::convert::FromSpecImpl<u8> for SessionType {
    open spec fn obeys_from_spec() -> bool {
        true
    }

    open spec fn from_spec(byte: u8) -> SessionType {
        spec_session_type_of(byte)
    }
}

impl From<SessionType> for u8 {
    fn from(session_type: SessionType) -> (r: u8) {
        match session_type {
            SessionType::Unicast => 0,
            SessionType::Group => 1,
            SessionType::Reserved => 3,
        }
    }
}

impl vstd::std_specs::convert::FromSpecImpl<SessionType> for u8 {
    open spec fn obeys_from_spec() -> bool {
        true
    }

    open spec fn from_spec(session_type: SessionType) -> u8 {
        spec_session_type_code(session_type)
    }
}

/// Decoding any code a session type encodes to gives the value back.
pub proof fn lemma_session_type_code_round_trip(t: SessionType)
    ensures
        spec_session_type_of(spec_session_type_code(t)) == t,
{
    assert(0u8 & 0x03 == 0 && 1u8 & 0x03 == 1 && 3u8 & 0x03 == 3) by (bit_vector);
}

/// The message flags byte: bits 1:0 hold the destination-size code, bit 2
/// says whether a source node id is present, bits 7:4 hold the protocol
/// version.  Bit 3 is reserved and preserved verbatim.
#[derive(Clone, Copy, Debug, PartialEq, Eq, Structural)]
pub struct MessageFlags(pub u8);

impl MessageFlags {
    /// The destination-size code of bits 1:0.
    pub fn dsiz(&self) -> (r: DSIZ)
        ensures
            r == spec_dsiz_of(self.0),
    {
        DSIZ::from(self.0)
    }

    /// Rewrites bits 1:0 to the code of `d`; every other bit is unchanged.
    pub fn set_dsiz(&mut self, d: DSIZ)
        ensures
            low_two_bits(final(self).0) == spec_dsiz_code(d),
            spec_dsiz_of(final(self).0) == d,
            source_id_flag(final(self).0) == source_id_flag(old(self).0),
            version_field(final(self).0) == version_field(old(self).0),
            final(self).0 & 0x08 == old(self).0 & 0x08,
    {
        let code = u8::from(d);
        let b = self.0;
        proof {
            assert(code < 4 ==> ((b & 0xFC) | code) & 0x03 == code && ((b & 0xFC) | code) & 0x04
                == b & 0x04 && (((b & 0xFC) | code) >> 4) & 0x0F == (b >> 4) & 0x0F && ((b & 0xFC)
                | code) & 0x08 == b & 0x08) by (bit_vector);
        }
        self.0 = (b & 0xFC) | code;
    }

    /// Bit 2: a source node id is present.
    pub fn s(&self) -> (r: bool)
        ensures
            r == source_id_flag(self.0),
    {
        self.0 & 0x04 != 0
    }

    /// Rewrites bit 2; every other bit is unchanged.
    pub fn set_s(&mut self, v: bool)
        ensures
            source_id_flag(final(self).0) == v,
            low_two_bits(final(self).0) == low_two_bits(old(self).0),
            version_field(final(self).0) == version_field(old(self).0),
            final(self).0 & 0x08 == old(self).0 & 0x08,
    {
        let b = self.0;
        proof {
            assert((b | 0x04) & 0x04 != 0 && (b & 0xFB) & 0x04 == 0 && (b | 0x04) & 0x03 == b
                & 0x03 && (b & 0xFB) & 0x03 == b & 0x03 && ((b | 0x04) >> 4) & 0x0F == (b >> 4)
                & 0x0F && ((b & 0xFB) >> 4) & 0x0F == (b >> 4) & 0x0F && (b | 0x04) & 0x08 == b
                & 0x08 && (b & 0xFB) & 0x08 == b & 0x08) by (bit_vector);
        }
        self.0 = if v {
            b | 0x04
        } else {
            b & 0xFB
        };
    }

    /// Bits 7:4: the protocol version, always below 16.
    pub fn version(&self) -> (r: u8)
        ensures
            r == version_field(self.0),
            r < 16,
    {
        let b = self.0;
        proof {
            assert((b >> 4) & 0x0F < 16) by (bit_vector);
        }
        (b >> 4) & 0x0F
    }

    /// Rewrites bits 7:4 to `v`; every other bit is unchanged.
    pub fn set_version(&mut self, v: u8)
        requires
            v < 16,
        ensures
            version_field(final(self).0) == v,
            low_two_bits(final(self).0) == low_two_bits(old(self).0),
            source_id_flag(final(self).0) == source_id_flag(old(self).0),
            final(self).0 & 0x08 == old(self).0 & 0x08,
    {
        let b = self.0;
        proof {
            assert(v < 16 ==> (((b & 0x0F) | (v << 4)) >> 4) & 0x0F == v && ((b & 0x0F) | (v
                << 4)) & 0x03 == b & 0x03 && ((b & 0x0F) | (v << 4)) & 0x04 == b & 0x04 && ((b
                & 0x0F) | (v << 4)) & 0x08 == b & 0x08) by (bit_vector);
        }
        self.0 = (b & 0x0F) | (v << 4);
    }
}

/// The security flags byte: bit 7 privacy, bit 6 control, bit 5 message
/// extensions present, bits 1:0 the session type.  Bits 4:2 are reserved
/// and preserved verbatim.
#[derive(Clone, Copy, Debug, PartialEq, Eq, Structural)]
pub struct SecurityFlags(pub u8);

impl SecurityFlags {
    /// Bit 7: privacy.
    pub fn p(&self) -> (r: bool)
        ensures
            r == privacy_flag(self.0),
    {
        self.0 & 0x80 != 0
    }

    /// Rewrites bit 7; every other bit is unchanged.
    pub fn set_p(&mut self, v: bool)
        ensures
            privacy_flag(final(self).0) == v,
            control_flag(final(self).0) == control_flag(old(self).0),
            extensions_flag(final(self).0) == extensions_flag(old(self).0),
            low_two_bits(final(self).0) == low_two_bits(old(self).0),
            final(self).0 & 0x1C == old(self).0 & 0x1C,
    {
        let b = self.0;
        proof {
            assert((b | 0x80) & 0x80 != 0 && (b & 0x7F) & 0x80 == 0 && (b | 0x80) & 0x40 == b
                & 0x40 && (b & 0x7F) & 0x40 == b & 0x40 && (b | 0x80) & 0x20 == b & 0x20 && (b
                & 0x7F) & 0x20 == b & 0x20 && (b | 0x80) & 0x03 == b & 0x03 && (b & 0x7F) & 0x03
                == b & 0x03 && (b | 0x80) & 0x1C == b & 0x1C && (b & 0x7F) & 0x1C == b & 0x1C)
                by (bit_vector);
        }
        self.0 = if v {
            b | 0x80
        } else {
            b & 0x7F
        };
    }

    /// Bit 6: control.
    pub fn c(&self) -> (r: bool)
        ensures
            r == control_flag(self.0),
    {
        self.0 & 0x40 != 0
    }

    /// Rewrites bit 6; every other bit is unchanged.
    pub fn set_c(&mut self, v: bool)
        ensures
            control_flag(final(self).0) == v,
            privacy_flag(final(self).0) == privacy_flag(old(self).0),
            extensions_flag(final(self).0) == extensions_flag(old(self).0),
            low_two_bits(final(self).0) == low_two_bits(old(self).0),
            final(self).0 & 0x1C == old(self).0 & 0x1C,
    {
        let b = self.0;
        proof {
            assert((b | 0x40) & 0x40 != 0 && (b & 0xBF) & 0x40 == 0 && (b | 0x40) & 0x80 == b
                & 0x80 && (b & 0xBF) & 0x80 == b & 0x80 && (b | 0x40) & 0x20 == b & 0x20 && (b
                & 0xBF) & 0x20 == b & 0x20 && (b | 0x40) & 0x03 == b & 0x03 && (b & 0xBF) & 0x03
                == b & 0x03 && (b | 0x40) & 0x1C == b & 0x1C && (b & 0xBF) & 0x1C == b & 0x1C)
                by (bit_vector);
        }
        self.0 = if v {
            b | 0x40
        } else {
            b & 0xBF
        };
    }

    /// Bit 5: message extensions are present.
    pub fn mx(&self) -> (r: bool)
        ensures
            r == extensions_flag(self.0),
    {
        self.0 & 0x20 != 0
    }

    /// Rewrites bit 5; every other bit is unchanged.
    pub fn set_mx(&mut self, v: bool)
        ensures
            extensions_flag(final(self).0) == v,
            privacy_flag(final(self).0) == privacy_flag(old(self).0),
            control_flag(final(self).0) == control_flag(old(self).0),
            low_two_bits(final(self).0) == low_two_bits(old(self).0),
            final(self).0 & 0x1C == old(self).0 & 0x1C,
    {
        let b = self.0;
        proof {
            assert((b | 0x20) & 0x20 != 0 && (b & 0xDF) & 0x20 == 0 && (b | 0x20) & 0x80 == b
                & 0x80 && (b & 0xDF) & 0x80 == b & 0x80 && (b | 0x20) & 0x40 == b & 0x40 && (b
                & 0xDF) & 0x40 == b & 0x40 && (b | 0x20) & 0x03 == b & 0x03 && (b & 0xDF) & 0x03
                == b & 0x03 && (b | 0x20) & 0x1C == b & 0x1C && (b & 0xDF) & 0x1C == b & 0x1C)
                by (bit_vector);
        }
        self.0 = if v {
            b | 0x20
        } else {
            b & 0xDF
        };
    }

    /// The session type of bits 1:0.
    pub fn session_type(&self) -> (r: SessionType)
        ensures
            r == spec_session_type_of(self.0),
    {
        SessionType::from(self.0)
    }

    /// Rewrites bits 1:0 to the code of `t`; every other bit is unchanged.
    pub fn set_session_type(&mut self, t: SessionType)
        ensures
            low_two_bits(final(self).0) == spec_session_type_code(t),
            spec_session_type_of(final(self).0) == t,
            privacy_flag(final(self).0) == privacy_flag(old(self).0),
            control_flag(final(self).0) == control_flag(old(self).0),
            extensions_flag(final(self).0) == extensions_flag(old(self).0),
            final(self).0 & 0x1C == old(self).0 & 0x1C,
    {
        let code = u8::from(t);
        let b = self.0;
        proof {
            assert(code < 4 ==> ((b & 0xFC) | code) & 0x03 == code && ((b & 0xFC) | code) & 0x80
                == b & 0x80 && ((b & 0xFC) | code) & 0x40 == b & 0x40 && ((b & 0xFC) | code) & 0x20
                == b & 0x20 && ((b & 0xFC) | code) & 0x1C == b & 0x1C) by (bit_vector);
        }
        self.0 = (b & 0xFC) | code;
    }
}

// ---------------------------------------------------------------------------
// The header's plain field types.
// ---------------------------------------------------------------------------

/// A 64-bit identifier of a single device endpoint.
pub type NodeID = u64;

/// A 16-bit identifier of a multicast group of endpoints.
pub type GroupID = u16;

/// The destination of a message: exactly one of a node id or a group id,
/// per the header's destination-size code.
#[derive(Clone, Copy, Debug, PartialEq, Eq, Structural)]
pub enum DestinationNodeID {
    Node(NodeID),
    Group(GroupID),
}

/// Classification of the counter space a message counter is drawn from.
/// It is not wire-encoded; the session and security context imply it.
#[derive(Clone, Copy, Debug, PartialEq, Eq, Structural)]
pub enum MessageCounterType {
    GlobalUnencrypted,
    GlobalEncryptedData,
    GlobalEncryptedControl,
    SecureSession,
}

// ---------------------------------------------------------------------------
// The message header and its wire codec.
// ---------------------------------------------------------------------------

/// The outer envelope of a message.  Which optional fields are present is
/// driven by flag bits of the same header: the source node id by the `S`
/// bit, the destination node id by the destination-size code, the message
/// extensions by the `MX` bit.  The message length is present only over
/// stream-oriented transports, a choice the transport makes, not the bytes.
#[derive(Debug, PartialEq)]
pub struct MessageHeader {
    /// Overall message length, only over stream-oriented transports; its
    /// presence is not inferable from the header's own bytes.
    pub message_length: Option<u16>,
    pub message_flags: MessageFlags,
    /// Identifies the session associated with this message.
    pub session_id: SessionID,
    pub security_flags: SecurityFlags,
    pub message_counter: u32,
    pub source_node_id: Option<NodeID>,
    pub dest_node_id: Option<DestinationNodeID>,
    pub message_extensions: Option<Vec<u8>>,
}

/// The mathematical value of a [`MessageHeader`]: the same fields with the
/// flag bytes as raw bytes and the opaque extensions as a byte sequence.
#[verifier::ext_equal]
pub ghost struct HeaderModel {
    pub message_length: Option<u16>,
    pub flags: u8,
    pub session_id: u16,
    pub security: u8,
    pub counter: u32,
    pub source_node_id: Option<u64>,
    pub dest_node_id: Option<DestinationNodeID>,
    pub extensions: Option<Seq<u8>>,
}

impl View for MessageHeader {
    type V = HeaderModel;

    open spec fn view(&self) -> HeaderModel {
        HeaderModel {
            message_length: self.message_length,
            flags: self.message_flags.0,
            session_id: self.session_id,
            security: self.security_flags.0,
            counter: self.message_counter,
            source_node_id: self.source_node_id,
            dest_node_id: self.dest_node_id,
            extensions: match self.message_extensions {
                Some(e) => Some(e@),
                None => None,
            },
        }
    }
}

/// Every optional field of the header is present exactly as its flag bits
/// say: the source node id iff the `S` bit, the destination node id shaped
/// by the destination-size code (absent for `NotPresent` and `Reserved`),
/// the extensions iff the `MX` bit.
pub open spec fn header_fields_consistent(m: HeaderModel) -> bool {
    &&& (m.source_node_id is Some) <==> source_id_flag(m.flags)
    &&& match spec_dsiz_of(m.flags) {
        DSIZ::NotPresent => m.dest_node_id is None,
        DSIZ::NodeID => m.dest_node_id matches Some(DestinationNodeID::Node(_)),
        DSIZ::GroupID => m.dest_node_id matches Some(DestinationNodeID::Group(_)),
        DSIZ::Reserved => m.dest_node_id is None,
    }
    &&& (m.extensions is Some) <==> extensions_flag(m.security)
}

/// The extensions block, when present, fits its 16-bit length prefix.
pub open spec fn header_extensions_fit(m: HeaderModel) -> bool {
    m.extensions matches Some(e) ==> e.len() <= 0xFFFF
}

/// A header that can be encoded: fields consistent with the flag bits and
/// the extensions block not longer than its length prefix allows.
pub open spec fn header_well_formed(m: HeaderModel) -> bool {
    header_fields_consistent(m) && header_extensions_fit(m)
}

/// The wire bytes of a header: message length (stream transports only),
/// message flags, session id, security flags, message counter, then the
/// flag-driven optional fields, every multi-byte field little-endian and
/// the extensions block prefixed by its 16-bit length.
pub open spec fn spec_header_bytes(m: HeaderModel) -> Seq<u8> {
    (match m.message_length {
        Some(l) => spec_u16_to_le_bytes(l),
        None => Seq::<u8>::empty(),
    }) + seq![m.flags] + spec_u16_to_le_bytes(m.session_id) + seq![m.security]
        + spec_u32_to_le_bytes(m.counter) + (match m.source_node_id {
        Some(n) => spec_u64_to_le_bytes(n),
        None => Seq::<u8>::empty(),
    }) + (match m.dest_node_id {
        Some(DestinationNodeID::Node(n)) => spec_u64_to_le_bytes(n),
        Some(DestinationNodeID::Group(g)) => spec_u16_to_le_bytes(g),
        None => Seq::<u8>::empty(),
    }) + spec_block_bytes(m.extensions)
}

/// The source node id field at `off`, present iff the `S` bit of `flags`,
/// and the offset just past it.
pub open spec fn spec_decode_source(bytes: Seq<u8>, off: int, flags: u8) -> Result<
    (Option<u64>, int),
    DecodeError,
> {
    if source_id_flag(flags) {
        if bytes.len() < off + 8 {
            Err(DecodeError::TruncatedInput)
        } else {
            Ok((Some(spec_u64_from_le_bytes(bytes.subrange(off, off + 8))), off + 8))
        }
    } else {
        Ok((None, off))
    }
}

/// The destination node id field at `off`, shaped by the destination-size
/// code of `flags`, and the offset just past it.
pub open spec fn spec_decode_dest(bytes: Seq<u8>, off: int, flags: u8) -> Result<
    (Option<DestinationNodeID>, int),
    DecodeError,
> {
    match spec_dsiz_of(flags) {
        DSIZ::NodeID => if bytes.len() < off + 8 {
            Err(DecodeError::TruncatedInput)
        } else {
            Ok(
                (
                    Some(DestinationNodeID::Node(spec_u64_from_le_bytes(bytes.subrange(off, off + 8)))),
                    off + 8,
                ),
            )
        },
        DSIZ::GroupID => if bytes.len() < off + 2 {
            Err(DecodeError::TruncatedInput)
        } else {
            Ok(
                (
                    Some(DestinationNodeID::Group(spec_u16_from_le_bytes(bytes.subrange(off, off + 2)))),
                    off + 2,
                ),
            )
        },
        _ => Ok((None, off)),
    }
}

/// Decodes a header from the front of `bytes`, consuming exactly the bytes
/// its own flags imply, and returns it with the count of bytes consumed.
/// Too few bytes for any flag-indicated field is `TruncatedInput`.
pub open spec fn spec_decode_header_prefix(bytes: Seq<u8>, over_stream: bool) -> Result<
    (HeaderModel, int),
    DecodeError,
> {
    let pre: int = if over_stream {
        2
    } else {
        0
    };
    if bytes.len() < pre + 8 {
        Err(DecodeError::TruncatedInput)
    } else {
        let flags = bytes[pre];
        let security = bytes[pre + 3];
        match spec_decode_source(bytes, pre + 8, flags) {
            Err(e) => Err(e),
            Ok((source, o2)) => match spec_decode_dest(bytes, o2, flags) {
                Err(e) => Err(e),
                Ok((dest, o3)) => match spec_decode_block(bytes, o3, extensions_flag(security)) {
                    Err(e) => Err(e),
                    Ok((ext, o4)) => Ok(
                        (
                            HeaderModel {
                                message_length: if over_stream {
                                    Some(spec_u16_from_le_bytes(bytes.subrange(0, 2)))
                                } else {
                                    None
                                },
                                flags,
                                session_id: spec_u16_from_le_bytes(bytes.subrange(pre + 1, pre + 3)),
                                security,
                                counter: spec_u32_from_le_bytes(bytes.subrange(pre + 4, pre + 8)),
                                source_node_id: source,
                                dest_node_id: dest,
                                extensions: ext,
                            },
                            o4,
                        ),
                    ),
                },
            },
        }
    }
}

/// Decodes a header that must account for `bytes` exactly: bytes beyond
/// what the header's own flags imply are payload, never header, and are
/// rejected as `TrailingBytes`.
pub open spec fn spec_decode_header(bytes: Seq<u8>, over_stream: bool) -> Result<
    HeaderModel,
    DecodeError,
> {
    match spec_decode_header_prefix(bytes, over_stream) {
        Err(e) => Err(e),
        Ok((m, n)) => if n == bytes.len() {
            Ok(m)
        } else {
            Err(DecodeError::TrailingBytes)
        },
    }
}

impl MessageHeader {
    /// Encodes the header to its wire bytes.  Fails, and encodes nothing,
    /// when an optional field is present or absent against the header's own
    /// flag bits, or when the extensions block cannot fit its 16-bit length
    /// prefix; the check is never silently coerced.
    pub fn encode(&self) -> (r: Result<Vec<u8>, EncodeError>)
        ensures
            r is Ok <==> header_well_formed(self@),
            r matches Ok(b) ==> b@ == spec_header_bytes(self@),
            !header_fields_consistent(self@) ==> r == Err::<Vec<u8>, EncodeError>(
                EncodeError::FieldPresenceMismatch,
            ),
            header_fields_consistent(self@) && !header_extensions_fit(self@) ==> r == Err::<
                Vec<u8>,
                EncodeError,
            >(EncodeError::BlockTooLong),
    {
        let source_ok = self.message_flags.s() == self.source_node_id.is_some();
        let dest_ok = match self.message_flags.dsiz() {
            DSIZ::NotPresent => self.dest_node_id.is_none(),
            DSIZ::NodeID => matches!(self.dest_node_id, Some(DestinationNodeID::Node(_))),
            DSIZ::GroupID => matches!(self.dest_node_id, Some(DestinationNodeID::Group(_))),
            DSIZ::Reserved => self.dest_node_id.is_none(),
        };
        let ext_ok = self.security_flags.mx() == self.message_extensions.is_some();
        if !(source_ok && dest_ok && ext_ok) {
            return Err(EncodeError::FieldPresenceMismatch);
        }
        if let Some(e) = &self.message_extensions {
            if e.len() > 0xFFFF {
                return Err(EncodeError::BlockTooLong);
            }
        }
        let mut out: Vec<u8> = Vec::new();
        match self.message_length {
            Some(l) => append_u16_le(&mut out, l),
            None => (),
        }
        out.push(self.message_flags.0);
        append_u16_le(&mut out, self.session_id);
        out.push(self.security_flags.0);
        append_u32_le(&mut out, self.message_counter);
        match self.source_node_id {
            Some(n) => append_u64_le(&mut out, n),
            None => (),
        }
        match self.dest_node_id {
            Some(DestinationNodeID::Node(n)) => append_u64_le(&mut out, n),
            Some(DestinationNodeID::Group(g)) => append_u16_le(&mut out, g),
            None => (),
        }
        match &self.message_extensions {
            Some(e) => append_block(&mut out, e.as_slice()),
            None => (),
        }
        proof {
            assert(out@ =~= spec_header_bytes(self@));
        }
        Ok(out)
    }

    /// Decodes a header from the front of `bytes` and also returns how many
    /// bytes it consumed; the rest belongs to the enclosing message.
    pub fn decode_prefix(bytes: &[u8], over_stream: bool) -> (r: Result<
        (MessageHeader, usize),
        DecodeError,
    >)
        ensures
            match spec_decode_header_prefix(bytes@, over_stream) {
                Ok((m, n)) => r matches Ok(p) && p.0@ == m && p.1 == n,
                Err(e) => r == Err::<(MessageHeader, usize), DecodeError>(e),
            },
    {
        let len = bytes.len();
        let pre: usize = if over_stream {
            2
        } else {
            0
        };
        if len < pre + 8 {
            return Err(DecodeError::TruncatedInput);
        }
        let message_length = if over_stream {
            Some(read_u16_le(bytes, 0))
        } else {
            None
        };
        let message_flags = MessageFlags(*vstd::slice::slice_index_get(bytes, pre));
        let session_id = read_u16_le(bytes, pre + 1);
        let security_flags = SecurityFlags(*vstd::slice::slice_index_get(bytes, pre + 3));
        let message_counter = read_u32_le(bytes, pre + 4);
        let mut off: usize = pre + 8;
        let source_node_id = if message_flags.s() {
            if len - off < 8 {
                return Err(DecodeError::TruncatedInput);
            }
            let n = read_u64_le(bytes, off);
            off = off + 8;
            Some(n)
        } else {
            None
        };
        let dest_node_id = match message_flags.dsiz() {
            DSIZ::NodeID => {
                if len - off < 8 {
                    return Err(DecodeError::TruncatedInput);
                }
                let n = read_u64_le(bytes, off);
                off = off + 8;
                Some(DestinationNodeID::Node(n))
            },
            DSIZ::GroupID => {
                if len - off < 2 {
                    return Err(DecodeError::TruncatedInput);
                }
                let g = read_u16_le(bytes, off);
                off = off + 2;
                Some(DestinationNodeID::Group(g))
            },
            _ => None,
        };
        let message_extensions = match read_block(bytes, off, security_flags.mx()) {
            Err(e) => {
                return Err(e);
            },
            Ok((b, past)) => {
                off = past;
                b
            },
        };
        let header = MessageHeader {
            message_length,
            message_flags,
            session_id,
            security_flags,
            message_counter,
            source_node_id,
            dest_node_id,
            message_extensions,
        };
        Ok((header, off))
    }

    /// A header's wire bytes decode back to the very same header, even when
    /// followed by further bytes of the enclosing message, and consume
    /// exactly the header's own bytes.  This holds for every well-formed
    /// header: reserved flag bits and reserved code slots are carried in
    /// the raw flag bytes, so nothing is lost on the way through.
    pub proof fn lemma_decode_prefix_round_trip(m: HeaderModel, rest: Seq<u8>)
        requires
            header_well_formed(m),
        ensures
            spec_decode_header_prefix(spec_header_bytes(m) + rest, m.message_length is Some)
                == Ok::<(HeaderModel, int), DecodeError>(
                (m, spec_header_bytes(m).len() as int),
            ),
    {
        lemma_auto_spec_u16_to_from_le_bytes();
        lemma_auto_spec_u32_to_from_le_bytes();
        lemma_auto_spec_u64_to_from_le_bytes();
        let os = m.message_length is Some;
        let hb = spec_header_bytes(m);
        let b = hb + rest;
        let p0 = match m.message_length {
            Some(l) => spec_u16_to_le_bytes(l),
            None => Seq::<u8>::empty(),
        };
        let p5 = match m.source_node_id {
            Some(n) => spec_u64_to_le_bytes(n),
            None => Seq::<u8>::empty(),
        };
        let p6 = match m.dest_node_id {
            Some(DestinationNodeID::Node(n)) => spec_u64_to_le_bytes(n),
            Some(DestinationNodeID::Group(g)) => spec_u16_to_le_bytes(g),
            None => Seq::<u8>::empty(),
        };
        let p7 = match m.extensions {
            Some(e) => spec_u16_to_le_bytes(e.len() as u16) + e,
            None => Seq::<u8>::empty(),
        };
        let pre = p0.len() as int;
        let o1 = pre + 8;
        let o2 = o1 + p5.len() as int;
        let o3 = o2 + p6.len() as int;
        let o4 = o3 + p7.len() as int;
        assert(hb.len() == o4);
        assert(b[pre] == m.flags);
        assert(b[pre + 3] == m.security);
        if os {
            assert(b.subrange(0, 2) =~= p0);
        }
        assert(b.subrange(pre + 1, pre + 3) =~= spec_u16_to_le_bytes(m.session_id));
        assert(b.subrange(pre + 4, pre + 8) =~= spec_u32_to_le_bytes(m.counter));
        match m.source_node_id {
            Some(n) => {
                assert(b.subrange(o1, o1 + 8) =~= spec_u64_to_le_bytes(n));
            },
            None => (),
        }
        assert(spec_decode_source(b, o1, m.flags) == Ok::<(Option<u64>, int), DecodeError>(
            (m.source_node_id, o2),
        ));
        match m.dest_node_id {
            Some(DestinationNodeID::Node(n)) => {
                assert(b.subrange(o2, o2 + 8) =~= spec_u64_to_le_bytes(n));
            },
            Some(DestinationNodeID::Group(g)) => {
                assert(b.subrange(o2, o2 + 2) =~= spec_u16_to_le_bytes(g));
            },
            None => (),
        }
        assert(spec_decode_dest(b, o2, m.flags) == Ok::<
            (Option<DestinationNodeID>, int),
            DecodeError,
        >((m.dest_node_id, o3)));
        match m.extensions {
            Some(e) => {
                assert(b.subrange(o3, o3 + 2) =~= spec_u16_to_le_bytes(e.len() as u16));
                assert(b.subrange(o3 + 2, o3 + 2 + e.len() as int) =~= e);
            },
            None => (),
        }
        assert(spec_decode_block(b, o3, extensions_flag(m.security)) =~~= Ok::<
            (Option<Seq<u8>>, int),
            DecodeError,
        >((m.extensions, o4)));
        assert(spec_decode_header_prefix(b, os) =~~= Ok::<(HeaderModel, int), DecodeError>(
            (m, o4),
        ));
    }

    /// Round trip: decoding what a well-formed header encodes to gives the
    /// header back exactly.  The stored flag bytes keep reserved bits and
    /// non-canonical reserved code patterns verbatim, so no exception is
    /// needed here; only re-encoding a decoded enum value canonicalizes.
    pub proof fn lemma_decode_encode_round_trip(m: HeaderModel)
        requires
            header_well_formed(m),
        ensures
            spec_decode_header(spec_header_bytes(m), m.message_length is Some) == Ok::<
                HeaderModel,
                DecodeError,
            >(m),
    {
        let hb = spec_header_bytes(m);
        Self::lemma_decode_prefix_round_trip(m, Seq::<u8>::empty());
        assert(hb + Seq::<u8>::empty() =~= hb);
    }

    /// Encoding a decoded header reproduces the input bytes exactly, for
    /// every byte sequence that decodes at all: the header stores its flag
    /// bytes raw, so reserved bits and non-canonical reserved code patterns
    /// pass through bit-exactly.
    pub proof fn lemma_encode_decode_identity(bytes: Seq<u8>, over_stream: bool, m: HeaderModel)
        requires
            spec_decode_header(bytes, over_stream) == Ok::<HeaderModel, DecodeError>(m),
        ensures
            header_well_formed(m),
            spec_header_bytes(m) == bytes,
    {
        lemma_auto_spec_u16_to_from_le_bytes();
        lemma_auto_spec_u32_to_from_le_bytes();
        lemma_auto_spec_u64_to_from_le_bytes();
        let pre: int = if over_stream {
            2
        } else {
            0
        };
        let o1 = pre + 8;
        let o2 = if source_id_flag(m.flags) {
            o1 + 8
        } else {
            o1
        };
        let o3 = o2 + (match spec_dsiz_of(m.flags) {
            DSIZ::NodeID => 8int,
            DSIZ::GroupID => 2int,
            _ => 0int,
        });
        if over_stream {
            assert(spec_u16_to_le_bytes(spec_u16_from_le_bytes(bytes.subrange(0, 2)))
                == bytes.subrange(0, 2));
        }
        assert(spec_u16_to_le_bytes(m.session_id) == bytes.subrange(pre + 1, pre + 3));
        assert(spec_u32_to_le_bytes(m.counter) == bytes.subrange(pre + 4, pre + 8));
        match m.extensions {
            Some(e) => {
                assert(e == bytes.subrange(
                    o3 + 2,
                    o3 + 2 + spec_u16_from_le_bytes(bytes.subrange(o3, o3 + 2)) as int,
                ));
                assert(e.len() as u16 == spec_u16_from_le_bytes(bytes.subrange(o3, o3 + 2)));
                assert(spec_u16_to_le_bytes(e.len() as u16) == bytes.subrange(o3, o3 + 2));
            },
            None => (),
        }
        assert(spec_header_bytes(m) =~= bytes);
    }

    /// Presence correctness: whatever the S and MX bits and the
    /// destination-size code of the input bytes, a decoded header has
    /// exactly the optional fields those bits imply — not fewer, not more —
    /// and so is itself well-formed.
    pub proof fn lemma_decode_presence(bytes: Seq<u8>, over_stream: bool, m: HeaderModel)
        requires
            spec_decode_header(bytes, over_stream) == Ok::<HeaderModel, DecodeError>(m),
        ensures
            header_well_formed(m),
            (m.source_node_id is Some) <==> source_id_flag(m.flags),
            (m.dest_node_id matches Some(DestinationNodeID::Node(_))) <==> spec_dsiz_of(m.flags)
                is NodeID,
            (m.dest_node_id matches Some(DestinationNodeID::Group(_))) <==> spec_dsiz_of(m.flags)
                is GroupID,
            (m.extensions is Some) <==> extensions_flag(m.security),
            (m.message_length is Some) <==> over_stream,
    {
    }

    /// Truncation detection: cutting a well-formed header's wire bytes
    /// short anywhere — in the fixed fields, the source node id, the
    /// destination node id, or the extensions block — fails to decode with
    /// `TruncatedInput`, never with a silently defaulted field.
    pub proof fn lemma_truncation_detected(m: HeaderModel, n: int)
        requires
            header_well_formed(m),
            0 <= n < spec_header_bytes(m).len(),
        ensures
            spec_decode_header(spec_header_bytes(m).take(n), m.message_length is Some) == Err::<
                HeaderModel,
                DecodeError,
            >(DecodeError::TruncatedInput),
    {
        lemma_auto_spec_u16_to_from_le_bytes();
        let os = m.message_length is Some;
        let hb = spec_header_bytes(m);
        let t = hb.take(n);
        let p0 = match m.message_length {
            Some(l) => spec_u16_to_le_bytes(l),
            None => Seq::<u8>::empty(),
        };
        let p5 = match m.source_node_id {
            Some(sn) => spec_u64_to_le_bytes(sn),
            None => Seq::<u8>::empty(),
        };
        let p6 = match m.dest_node_id {
            Some(DestinationNodeID::Node(dn)) => spec_u64_to_le_bytes(dn),
            Some(DestinationNodeID::Group(g)) => spec_u16_to_le_bytes(g),
            None => Seq::<u8>::empty(),
        };
        let p7 = match m.extensions {
            Some(e) => spec_u16_to_le_bytes(e.len() as u16) + e,
            None => Seq::<u8>::empty(),
        };
        let pre = p0.len() as int;
        let o1 = pre + 8;
        let o2 = o1 + p5.len() as int;
        let o3 = o2 + p6.len() as int;
        let o4 = o3 + p7.len() as int;
        lemma_auto_spec_u32_to_from_le_bytes();
        lemma_auto_spec_u64_to_from_le_bytes();
        assert(hb.len() == o4);
        if n < pre + 8 {
            // the fixed leading fields themselves are cut short
        } else {
            assert(t[pre] == m.flags);
            assert(t[pre + 3] == m.security);
            if source_id_flag(m.flags) && n < o1 + 8 {
                // cut inside the source node id
            } else {
                assert(o2 <= n);
                let d = spec_dsiz_of(m.flags);
                if d is NodeID && n < o2 + 8 {
                    // cut inside a 64-bit destination node id
                } else if d is GroupID && n < o2 + 2 {
                    // cut inside a 16-bit destination group id
                } else {
                    assert(o3 <= n);
                    match m.extensions {
                        Some(e) => {
                            if n < o3 + 2 {
                                // cut inside the extensions length prefix
                            } else {
                                // the length prefix is intact and promises
                                // more bytes than remain
                                assert(t.subrange(o3, o3 + 2) =~= spec_u16_to_le_bytes(
                                    e.len() as u16,
                                ));
                                assert(n < o3 + 2 + e.len());
                            }
                        },
                        None => {
                            assert(false);
                        },
                    }
                }
            }
        }
    }

    /// Decodes a header that must account for `bytes` exactly: too few
    /// bytes for a flag-indicated field is `TruncatedInput`, unconsumed
    /// bytes beyond the header's own fields are `TrailingBytes`.
    pub fn decode(bytes: &[u8], over_stream: bool) -> (r: Result<MessageHeader, DecodeError>)
        ensures
            match spec_decode_header(bytes@, over_stream) {
                Ok(m) => r matches Ok(h) && h@ == m,
                Err(e) => r == Err::<MessageHeader, DecodeError>(e),
            },
    {
        match Self::decode_prefix(bytes, over_stream) {
            Err(e) => Err(e),
            Ok((header, consumed)) => if consumed == bytes.len() {
                Ok(header)
            } else {
                Err(DecodeError::TrailingBytes)
            },
        }
    }
}

/// A successfully decoded header accounts for at least its fixed leading
/// fields and never for more bytes than it was given.
pub proof fn lemma_decode_prefix_consumed_bounds(bytes: Seq<u8>, over_stream: bool)
    ensures
        spec_decode_header_prefix(bytes, over_stream) matches Ok((m, n)) ==> (if over_stream {
            10int
        } else {
            8int
        }) <= n <= bytes.len(),
{
}

// ---------------------------------------------------------------------------
// The whole message: header, encrypted payload, footer.
// ---------------------------------------------------------------------------

/// The plaintext a message carries: exactly one protocol message.  An
/// external cryptographic layer encrypts these bytes before transport; the
/// codec here never performs that encryption itself.
pub struct MessagePayload {
    pub payload: protocol::ProtocolMessage,
}

/// The trailing part of a message: an opaque integrity check, present iff
/// the enclosing session is a secure session — a fact the session context
/// supplies, not the footer's own bytes.
#[derive(Debug, PartialEq)]
pub struct MessageFooter {
    pub message_integrity_check: Option<Vec<u8>>,
}

impl View for MessageFooter {
    type V = Option<Seq<u8>>;

    open spec fn view(&self) -> Option<Seq<u8>> {
        match self.message_integrity_check {
            Some(c) => Some(c@),
            None => None,
        }
    }
}

/// The wire bytes of a footer: the integrity check verbatim, or nothing.
/// Its length is fixed by the session's integrity algorithm, not encoded.
pub open spec fn spec_footer_bytes(f: Option<Seq<u8>>) -> Seq<u8> {
    match f {
        Some(c) => c,
        None => Seq::<u8>::empty(),
    }
}

/// One unit handed to or received from the transport boundary: a header,
/// the payload, and a footer.
pub struct Message {
    pub header: MessageHeader,
    pub payload: MessagePayload,
    pub footer: MessageFooter,
}

/// Splits wire bytes into header, ciphertext and integrity check: the
/// header consumes exactly the bytes its flags imply, the integrity check
/// is the trailing `mic_len` bytes the session's algorithm fixes, and the
/// ciphertext is everything in between.
pub open spec fn spec_split_message(bytes: Seq<u8>, over_stream: bool, mic_len: int) -> Result<
    (HeaderModel, Seq<u8>, Option<Seq<u8>>),
    DecodeError,
> {
    match spec_decode_header_prefix(bytes, over_stream) {
        Err(e) => Err(e),
        Ok((m, n)) => if bytes.len() - n < mic_len {
            Err(DecodeError::TruncatedInput)
        } else {
            Ok(
                (
                    m,
                    bytes.subrange(n, bytes.len() - mic_len),
                    if mic_len > 0 {
                        Some(bytes.subrange(bytes.len() - mic_len, bytes.len() as int))
                    } else {
                        None
                    },
                ),
            )
        },
    }
}

impl Message {
    /// Composes the final on-wire bytes: header bytes, then the ciphertext
    /// an external collaborator made of the payload's plaintext, then the
    /// footer.  Fails exactly when the header cannot be encoded.
    pub fn encode_with_ciphertext(
        header: &MessageHeader,
        ciphertext: &[u8],
        footer: &MessageFooter,
    ) -> (r: Result<Vec<u8>, EncodeError>)
        ensures
            r is Ok <==> header_well_formed(header@),
            r matches Ok(b) ==> b@ == spec_header_bytes(header@) + ciphertext@ + spec_footer_bytes(
                footer@,
            ),
            !header_fields_consistent(header@) ==> r == Err::<Vec<u8>, EncodeError>(
                EncodeError::FieldPresenceMismatch,
            ),
            header_fields_consistent(header@) && !header_extensions_fit(header@) ==> r == Err::<
                Vec<u8>,
                EncodeError,
            >(EncodeError::BlockTooLong),
    {
        match header.encode() {
            Err(e) => Err(e),
            Ok(mut out) => {
                append_bytes(&mut out, ciphertext);
                match &footer.message_integrity_check {
                    Some(mic) => append_bytes(&mut out, mic.as_slice()),
                    None => (),
                }
                proof {
                    assert(out@ =~= spec_header_bytes(header@) + ciphertext@ + spec_footer_bytes(
                        footer@,
                    ));
                }
                Ok(out)
            },
        }
    }

    /// The mirror of [`Message::encode_with_ciphertext`]: splits wire bytes
    /// into the header, the ciphertext, and the trailing integrity check of
    /// the length the session's algorithm fixes (zero when the session is
    /// not secured).  Verifying the integrity check and decrypting the
    /// ciphertext remain the caller's external steps; only then may the
    /// inner protocol message be decoded from the plaintext.
    pub fn split_wire_bytes(bytes: &[u8], over_stream: bool, mic_len: usize) -> (r: Result<
        (MessageHeader, Vec<u8>, MessageFooter),
        DecodeError,
    >)
        ensures
            match spec_split_message(bytes@, over_stream, mic_len as int) {
                Ok((m, c, f)) => r matches Ok(t) && t.0@ == m && t.1@ == c && t.2@ == f,
                Err(e) => r == Err::<(MessageHeader, Vec<u8>, MessageFooter), DecodeError>(e),
            },
    {
        proof {
            lemma_decode_prefix_consumed_bounds(bytes@, over_stream);
        }
        match MessageHeader::decode_prefix(bytes, over_stream) {
            Err(e) => Err(e),
            Ok((header, consumed)) => {
                let len = bytes.len();
                if len - consumed < mic_len {
                    return Err(DecodeError::TruncatedInput);
                }
                let ciphertext = copy_range(bytes, consumed, len - mic_len - consumed);
                let footer = if mic_len > 0 {
                    MessageFooter {
                        message_integrity_check: Some(copy_range(bytes, len - mic_len, mic_len)),
                    }
                } else {
                    MessageFooter { message_integrity_check: None }
                };
                Ok((header, ciphertext, footer))
            },
        }
    }

    /// Round trip of the outer framing: composed wire bytes split back
    /// into the same header, the same ciphertext and the same integrity
    /// check, as long as a present integrity check is not empty — an empty
    /// one occupies no bytes and splits back as absent.
    pub proof fn lemma_split_round_trip(m: HeaderModel, ciphertext: Seq<u8>, mic: Option<Seq<u8>>)
        requires
            header_well_formed(m),
            mic matches Some(c) ==> c.len() > 0,
        ensures
            spec_split_message(
                spec_header_bytes(m) + ciphertext + spec_footer_bytes(mic),
                m.message_length is Some,
                spec_footer_bytes(mic).len() as int,
            ) == Ok::<(HeaderModel, Seq<u8>, Option<Seq<u8>>), DecodeError>((m, ciphertext, mic)),
    {
        let hb = spec_header_bytes(m);
        let fb = spec_footer_bytes(mic);
        let rest = ciphertext + fb;
        let b = hb + ciphertext + fb;
        MessageHeader::lemma_decode_prefix_round_trip(m, rest);
        assert(b =~= hb + rest);
        let n = hb.len() as int;
        assert(b.subrange(n, b.len() - fb.len()) =~= ciphertext);
        match mic {
            Some(c) => {
                assert(b.subrange(b.len() - fb.len(), b.len() as int) =~= c);
            },
            None => (),
        }
        assert(spec_split_message(b, m.message_length is Some, fb.len() as int) =~~= Ok::<
            (HeaderModel, Seq<u8>, Option<Seq<u8>>),
            DecodeError,
        >((m, ciphertext, mic)));
    }
}

} // verus!


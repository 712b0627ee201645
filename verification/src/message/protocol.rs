//! The protocol message carried inside a message's (conceptually encrypted)
//! payload: its exchange flags byte and its flag-driven optional fields.

use vstd::prelude::*;
use vstd::bytes::*;
use crate::codec::{
    DecodeError, EncodeError, append_block, append_bytes, append_u16_le, append_u32_le,
    copy_range, read_block, read_u16_le, read_u32_le, spec_block_bytes, spec_decode_block,
};

verus! {

/// Exchange flags bit 0: the sender is the initiator of the exchange.
pub open spec fn initiator_flag(b: u8) -> bool {
    b & 0x01 != 0
}

/// Exchange flags bit 1: an acknowledged message counter is present.
pub open spec fn ack_flag(b: u8) -> bool {
    b & 0x02 != 0
}

/// Exchange flags bit 2: reliability is requested.
pub open spec fn reliability_flag(b: u8) -> bool {
    b & 0x04 != 0
}

/// Exchange flags bit 3: secured extensions are present.
pub open spec fn secured_extensions_flag(b: u8) -> bool {
    b & 0x08 != 0
}

/// Exchange flags bit 4: a vendor id is present.
pub open spec fn vendor_flag(b: u8) -> bool {
    b & 0x10 != 0
}

/// The exchange flags byte of a protocol message: bit 0 initiator, bit 1
/// acknowledgment, bit 2 reliability, bit 3 secured extensions present,
/// bit 4 vendor id present.  Bits 7:5 are reserved and preserved verbatim.
#[derive(Clone, Copy, Debug, PartialEq, Eq, Structural)]
pub struct ExchangeFlags(pub u8);

impl ExchangeFlags {
    /// Bit 0: initiator.
    pub fn i(&self) -> (r: bool)
        ensures
            r == initiator_flag(self.0),
    {
        self.0 & 0x01 != 0
    }

    /// Rewrites bit 0; every other bit is unchanged.
    pub fn set_i(&mut self, v: bool)
        ensures
            initiator_flag(final(self).0) == v,
            ack_flag(final(self).0) == ack_flag(old(self).0),
            reliability_flag(final(self).0) == reliability_flag(old(self).0),
            secured_extensions_flag(final(self).0) == secured_extensions_flag(old(self).0),
            vendor_flag(final(self).0) == vendor_flag(old(self).0),
            final(self).0 & 0xE0 == old(self).0 & 0xE0,
    {
        let b = self.0;
        proof {
            assert((b | 0x01) & 0x01 != 0 && (b & 0xFE) & 0x01 == 0 && (b | 0x01) & 0x02 == b
                & 0x02 && (b & 0xFE) & 0x02 == b & 0x02 && (b | 0x01) & 0x04 == b & 0x04 && (b
                & 0xFE) & 0x04 == b & 0x04 && (b | 0x01) & 0x08 == b & 0x08 && (b & 0xFE) & 0x08
                == b & 0x08 && (b | 0x01) & 0x10 == b & 0x10 && (b & 0xFE) & 0x10 == b & 0x10 && (b
                | 0x01) & 0xE0 == b & 0xE0 && (b & 0xFE) & 0xE0 == b & 0xE0) by (bit_vector);
        }
        self.0 = if v {
            b | 0x01
        } else {
            b & 0xFE
        };
    }

    /// Bit 1: acknowledgment.
    pub fn a(&self) -> (r: bool)
        ensures
            r == ack_flag(self.0),
    {
        self.0 & 0x02 != 0
    }

    /// Rewrites bit 1; every other bit is unchanged.
    pub fn set_a(&mut self, v: bool)
        ensures
            ack_flag(final(self).0) == v,
            initiator_flag(final(self).0) == initiator_flag(old(self).0),
            reliability_flag(final(self).0) == reliability_flag(old(self).0),
            secured_extensions_flag(final(self).0) == secured_extensions_flag(old(self).0),
            vendor_flag(final(self).0) == vendor_flag(old(self).0),
            final(self).0 & 0xE0 == old(self).0 & 0xE0,
    {
        let b = self.0;
        proof {
            assert((b | 0x02) & 0x02 != 0 && (b & 0xFD) & 0x02 == 0 && (b | 0x02) & 0x01 == b
                & 0x01 && (b & 0xFD) & 0x01 == b & 0x01 && (b | 0x02) & 0x04 == b & 0x04 && (b
                & 0xFD) & 0x04 == b & 0x04 && (b | 0x02) & 0x08 == b & 0x08 && (b & 0xFD) & 0x08
                == b & 0x08 && (b | 0x02) & 0x10 == b & 0x10 && (b & 0xFD) & 0x10 == b & 0x10 && (b
                | 0x02) & 0xE0 == b & 0xE0 && (b & 0xFD) & 0xE0 == b & 0xE0) by (bit_vector);
        }
        self.0 = if v {
            b | 0x02
        } else {
            b & 0xFD
        };
    }

    /// Bit 2: reliability requested.
    pub fn r(&self) -> (r: bool)
        ensures
            r == reliability_flag(self.0),
    {
        self.0 & 0x04 != 0
    }

    /// Rewrites bit 2; every other bit is unchanged.
    pub fn set_r(&mut self, v: bool)
        ensures
            reliability_flag(final(self).0) == v,
            initiator_flag(final(self).0) == initiator_flag(old(self).0),
            ack_flag(final(self).0) == ack_flag(old(self).0),
            secured_extensions_flag(final(self).0) == secured_extensions_flag(old(self).0),
            vendor_flag(final(self).0) == vendor_flag(old(self).0),
            final(self).0 & 0xE0 == old(self).0 & 0xE0,
    {
        let b = self.0;
        proof {
            assert((b | 0x04) & 0x04 != 0 && (b & 0xFB) & 0x04 == 0 && (b | 0x04) & 0x01 == b
                & 0x01 && (b & 0xFB) & 0x01 == b & 0x01 && (b | 0x04) & 0x02 == b & 0x02 && (b
                & 0xFB) & 0x02 == b & 0x02 && (b | 0x04) & 0x08 == b & 0x08 && (b & 0xFB) & 0x08
                == b & 0x08 && (b | 0x04) & 0x10 == b & 0x10 && (b & 0xFB) & 0x10 == b & 0x10 && (b
                | 0x04) & 0xE0 == b & 0xE0 && (b & 0xFB) & 0xE0 == b & 0xE0) by (bit_vector);
        }
        self.0 = if v {
            b | 0x04
        } else {
            b & 0xFB
        };
    }

    /// Bit 3: secured extensions present.
    pub fn sx(&self) -> (r: bool)
        ensures
            r == secured_extensions_flag(self.0),
    {
        self.0 & 0x08 != 0
    }

    /// Rewrites bit 3; every other bit is unchanged.
    pub fn set_sx(&mut self, v: bool)
        ensures
            secured_extensions_flag(final(self).0) == v,
            initiator_flag(final(self).0) == initiator_flag(old(self).0),
            ack_flag(final(self).0) == ack_flag(old(self).0),
            reliability_flag(final(self).0) == reliability_flag(old(self).0),
            vendor_flag(final(self).0) == vendor_flag(old(self).0),
            final(self).0 & 0xE0 == old(self).0 & 0xE0,
    {
        let b = self.0;
        proof {
            assert((b | 0x08) & 0x08 != 0 && (b & 0xF7) & 0x08 == 0 && (b | 0x08) & 0x01 == b
                & 0x01 && (b & 0xF7) & 0x01 == b & 0x01 && (b | 0x08) & 0x02 == b & 0x02 && (b
                & 0xF7) & 0x02 == b & 0x02 && (b | 0x08) & 0x04 == b & 0x04 && (b & 0xF7) & 0x04
                == b & 0x04 && (b | 0x08) & 0x10 == b & 0x10 && (b & 0xF7) & 0x10 == b & 0x10 && (b
                | 0x08) & 0xE0 == b & 0xE0 && (b & 0xF7) & 0xE0 == b & 0xE0) by (bit_vector);
        }
        self.0 = if v {
            b | 0x08
        } else {
            b & 0xF7
        };
    }

    /// Bit 4: vendor id present.
    pub fn v(&self) -> (r: bool)
        ensures
            r == vendor_flag(self.0),
    {
        self.0 & 0x10 != 0
    }

    /// Rewrites bit 4; every other bit is unchanged.
    pub fn set_v(&mut self, v: bool)
        ensures
            vendor_flag(final(self).0) == v,
            initiator_flag(final(self).0) == initiator_flag(old(self).0),
            ack_flag(final(self).0) == ack_flag(old(self).0),
            reliability_flag(final(self).0) == reliability_flag(old(self).0),
            secured_extensions_flag(final(self).0) == secured_extensions_flag(old(self).0),
            final(self).0 & 0xE0 == old(self).0 & 0xE0,
    {
        let b = self.0;
        proof {
            assert((b | 0x10) & 0x10 != 0 && (b & 0xEF) & 0x10 == 0 && (b | 0x10) & 0x01 == b
                & 0x01 && (b & 0xEF) & 0x01 == b & 0x01 && (b | 0x10) & 0x02 == b & 0x02 && (b
                & 0xEF) & 0x02 == b & 0x02 && (b | 0x10) & 0x04 == b & 0x04 && (b & 0xEF) & 0x04
                == b & 0x04 && (b | 0x10) & 0x08 == b & 0x08 && (b & 0xEF) & 0x08 == b & 0x08 && (b
                | 0x10) & 0xE0 == b & 0xE0 && (b & 0xEF) & 0xE0 == b & 0xE0) by (bit_vector);
        }
        self.0 = if v {
            b | 0x10
        } else {
            b & 0xEF
        };
    }
}

// ---------------------------------------------------------------------------
// The protocol message and its wire codec.
// ---------------------------------------------------------------------------

/// The plaintext structure carried inside a message's payload.  Which
/// optional fields are present is driven by its own exchange flags: the
/// vendor id by `V`, the acknowledged counter by `A`, the secured
/// extensions by `SX`.  The payload has no length field of its own: it is
/// whatever bytes remain, so its extent must come from the enclosing
/// plaintext boundary that decryption supplies.
#[derive(Debug, PartialEq)]
pub struct ProtocolMessage {
    pub exchange_flags: ExchangeFlags,
    pub protocol_opcode: u8,
    pub exchange_id: u16,
    pub protocol_id: u16,
    pub protocol_vendor_id: Option<u16>,
    pub acknowledged_message_counter: Option<u32>,
    pub secured_extensions: Option<Vec<u8>>,
    pub payload: Option<Vec<u8>>,
}

/// The mathematical value of a [`ProtocolMessage`]: the same fields with
/// the flag byte raw and the opaque blocks as byte sequences.
#[verifier::ext_equal]
pub ghost struct ProtocolMessageModel {
    pub exchange_flags: u8,
    pub protocol_opcode: u8,
    pub exchange_id: u16,
    pub protocol_id: u16,
    pub protocol_vendor_id: Option<u16>,
    pub acknowledged_message_counter: Option<u32>,
    pub secured_extensions: Option<Seq<u8>>,
    pub payload: Option<Seq<u8>>,
}

impl View for ProtocolMessage {
    type V = ProtocolMessageModel;

    open spec fn view(&self) -> ProtocolMessageModel {
        ProtocolMessageModel {
            exchange_flags: self.exchange_flags.0,
            protocol_opcode: self.protocol_opcode,
            exchange_id: self.exchange_id,
            protocol_id: self.protocol_id,
            protocol_vendor_id: self.protocol_vendor_id,
            acknowledged_message_counter: self.acknowledged_message_counter,
            secured_extensions: match self.secured_extensions {
                Some(e) => Some(e@),
                None => None,
            },
            payload: match self.payload {
                Some(p) => Some(p@),
                None => None,
            },
        }
    }
}

/// Every optional field of the protocol message is present exactly as its
/// exchange flag bits say: the vendor id iff `V`, the acknowledged counter
/// iff `A`, the secured extensions iff `SX`.  The payload is free: its
/// absence is legal, as in a pure acknowledgment.
pub open spec fn protocol_fields_consistent(m: ProtocolMessageModel) -> bool {
    &&& (m.protocol_vendor_id is Some) <==> vendor_flag(m.exchange_flags)
    &&& (m.acknowledged_message_counter is Some) <==> ack_flag(m.exchange_flags)
    &&& (m.secured_extensions is Some) <==> secured_extensions_flag(m.exchange_flags)
}

/// The secured extensions block, when present, fits its 16-bit length
/// prefix.
pub open spec fn protocol_extensions_fit(m: ProtocolMessageModel) -> bool {
    m.secured_extensions matches Some(e) ==> e.len() <= 0xFFFF
}

/// A protocol message that can be encoded.
pub open spec fn protocol_well_formed(m: ProtocolMessageModel) -> bool {
    protocol_fields_consistent(m) && protocol_extensions_fit(m)
}

/// The plaintext wire bytes of a protocol message: exchange flags, opcode,
/// exchange id, protocol id, then the flag-driven optional fields, and the
/// opaque payload as every remaining byte.
pub open spec fn spec_protocol_message_bytes(m: ProtocolMessageModel) -> Seq<u8> {
    seq![m.exchange_flags, m.protocol_opcode] + spec_u16_to_le_bytes(m.exchange_id)
        + spec_u16_to_le_bytes(m.protocol_id) + (match m.protocol_vendor_id {
        Some(v) => spec_u16_to_le_bytes(v),
        None => Seq::<u8>::empty(),
    }) + (match m.acknowledged_message_counter {
        Some(c) => spec_u32_to_le_bytes(c),
        None => Seq::<u8>::empty(),
    }) + spec_block_bytes(m.secured_extensions) + (match m.payload {
        Some(p) => p,
        None => Seq::<u8>::empty(),
    })
}

/// Decodes a protocol message from the whole of `bytes` — the exact
/// plaintext span the decryption boundary supplied.  Every byte past the
/// flag-driven fields belongs to the payload, so the only failure is
/// `TruncatedInput`; with the `A` bit clear, trailing bytes that might
/// look like a counter are payload, never a counter.
pub open spec fn spec_decode_protocol_message(bytes: Seq<u8>) -> Result<
    ProtocolMessageModel,
    DecodeError,
> {
    if bytes.len() < 6 {
        Err(DecodeError::TruncatedInput)
    } else {
        let flags = bytes[0];
        let o1: int = if vendor_flag(flags) {
            8
        } else {
            6
        };
        if bytes.len() < o1 {
            Err(DecodeError::TruncatedInput)
        } else {
            let vendor = if vendor_flag(flags) {
                Some(spec_u16_from_le_bytes(bytes.subrange(6, 8)))
            } else {
                None
            };
            let o2: int = if ack_flag(flags) {
                o1 + 4
            } else {
                o1
            };
            if bytes.len() < o2 {
                Err(DecodeError::TruncatedInput)
            } else {
                let ack = if ack_flag(flags) {
                    Some(spec_u32_from_le_bytes(bytes.subrange(o1, o1 + 4)))
                } else {
                    None
                };
                match spec_decode_block(bytes, o2, secured_extensions_flag(flags)) {
                    Err(e) => Err(e),
                    Ok((sx, o3)) => Ok(
                        ProtocolMessageModel {
                            exchange_flags: flags,
                            protocol_opcode: bytes[1],
                            exchange_id: spec_u16_from_le_bytes(bytes.subrange(2, 4)),
                            protocol_id: spec_u16_from_le_bytes(bytes.subrange(4, 6)),
                            protocol_vendor_id: vendor,
                            acknowledged_message_counter: ack,
                            secured_extensions: sx,
                            payload: if o3 < bytes.len() {
                                Some(bytes.subrange(o3, bytes.len() as int))
                            } else {
                                None
                            },
                        },
                    ),
                }
            }
        }
    }
}

impl ProtocolMessage {
    /// Encodes the protocol message to its plaintext wire bytes.  Fails,
    /// and encodes nothing, when an optional field is present or absent
    /// against the message's own exchange flag bits, or when the secured
    /// extensions block cannot fit its 16-bit length prefix.
    pub fn encode(&self) -> (r: Result<Vec<u8>, EncodeError>)
        ensures
            r is Ok <==> protocol_well_formed(self@),
            r matches Ok(b) ==> b@ == spec_protocol_message_bytes(self@),
            !protocol_fields_consistent(self@) ==> r == Err::<Vec<u8>, EncodeError>(
                EncodeError::FieldPresenceMismatch,
            ),
            protocol_fields_consistent(self@) && !protocol_extensions_fit(self@) ==> r == Err::<
                Vec<u8>,
                EncodeError,
            >(EncodeError::BlockTooLong),
    {
        let vendor_ok = self.exchange_flags.v() == self.protocol_vendor_id.is_some();
        let ack_ok = self.exchange_flags.a() == self.acknowledged_message_counter.is_some();
        let sx_ok = self.exchange_flags.sx() == self.secured_extensions.is_some();
        if !(vendor_ok && ack_ok && sx_ok) {
            return Err(EncodeError::FieldPresenceMismatch);
        }
        if let Some(e) = &self.secured_extensions {
            if e.len() > 0xFFFF {
                return Err(EncodeError::BlockTooLong);
            }
        }
        let mut out: Vec<u8> = Vec::new();
        out.push(self.exchange_flags.0);
        out.push(self.protocol_opcode);
        append_u16_le(&mut out, self.exchange_id);
        append_u16_le(&mut out, self.protocol_id);
        match self.protocol_vendor_id {
            Some(v) => append_u16_le(&mut out, v),
            None => (),
        }
        match self.acknowledged_message_counter {
            Some(c) => append_u32_le(&mut out, c),
            None => (),
        }
        match &self.secured_extensions {
            Some(e) => append_block(&mut out, e.as_slice()),
            None => (),
        }
        match &self.payload {
            Some(p) => append_bytes(&mut out, p.as_slice()),
            None => (),
        }
        proof {
            assert(out@ =~= spec_protocol_message_bytes(self@));
        }
        Ok(out)
    }

    /// Decodes a protocol message from the whole of `bytes`: the exact
    /// plaintext span that the decryption boundary supplied.  All bytes
    /// past the flag-driven fields are the opaque payload; none are ever
    /// read as an optional field whose flag bit is clear.
    pub fn decode(bytes: &[u8]) -> (r: Result<ProtocolMessage, DecodeError>)
        ensures
            match spec_decode_protocol_message(bytes@) {
                Ok(m) => r matches Ok(p) && p@ == m,
                Err(e) => r == Err::<ProtocolMessage, DecodeError>(e),
            },
    {
        let len = bytes.len();
        if len < 6 {
            return Err(DecodeError::TruncatedInput);
        }
        let exchange_flags = ExchangeFlags(*vstd::slice::slice_index_get(bytes, 0));
        let protocol_opcode = *vstd::slice::slice_index_get(bytes, 1);
        let exchange_id = read_u16_le(bytes, 2);
        let protocol_id = read_u16_le(bytes, 4);
        let mut off: usize = 6;
        let protocol_vendor_id = if exchange_flags.v() {
            if len - off < 2 {
                return Err(DecodeError::TruncatedInput);
            }
            let v = read_u16_le(bytes, off);
            off = off + 2;
            Some(v)
        } else {
            None
        };
        let acknowledged_message_counter = if exchange_flags.a() {
            if len - off < 4 {
                return Err(DecodeError::TruncatedInput);
            }
            let c = read_u32_le(bytes, off);
            off = off + 4;
            Some(c)
        } else {
            None
        };
        let secured_extensions = match read_block(bytes, off, exchange_flags.sx()) {
            Err(e) => {
                return Err(e);
            },
            Ok((b, past)) => {
                off = past;
                b
            },
        };
        let payload = if off < len {
            let p = copy_range(bytes, off, len - off);
            Some(p)
        } else {
            None
        };
        Ok(
            ProtocolMessage {
                exchange_flags,
                protocol_opcode,
                exchange_id,
                protocol_id,
                protocol_vendor_id,
                acknowledged_message_counter,
                secured_extensions,
                payload,
            },
        )
    }

    /// Encoding a decoded protocol message reproduces the input bytes
    /// exactly, for every byte sequence that decodes at all: the flag byte
    /// is stored raw, and the payload takes in every remaining byte.
    pub proof fn lemma_encode_decode_identity(bytes: Seq<u8>, m: ProtocolMessageModel)
        requires
            spec_decode_protocol_message(bytes) == Ok::<ProtocolMessageModel, DecodeError>(m),
        ensures
            protocol_well_formed(m),
            spec_protocol_message_bytes(m) == bytes,
    {
        lemma_auto_spec_u16_to_from_le_bytes();
        lemma_auto_spec_u32_to_from_le_bytes();
        let o1: int = if vendor_flag(m.exchange_flags) {
            8
        } else {
            6
        };
        let o2: int = if ack_flag(m.exchange_flags) {
            o1 + 4
        } else {
            o1
        };
        assert(spec_u16_to_le_bytes(m.exchange_id) == bytes.subrange(2, 4));
        assert(spec_u16_to_le_bytes(m.protocol_id) == bytes.subrange(4, 6));
        match m.secured_extensions {
            Some(e) => {
                assert(e == bytes.subrange(
                    o2 + 2,
                    o2 + 2 + spec_u16_from_le_bytes(bytes.subrange(o2, o2 + 2)) as int,
                ));
                assert(e.len() as u16 == spec_u16_from_le_bytes(bytes.subrange(o2, o2 + 2)));
                assert(spec_u16_to_le_bytes(e.len() as u16) == bytes.subrange(o2, o2 + 2));
            },
            None => (),
        }
        assert(spec_protocol_message_bytes(m) =~= bytes);
    }

    /// A protocol message's plaintext bytes decode back to the very same
    /// message, as long as the payload is not present-but-empty: an empty
    /// payload encodes to no bytes at all, which decode reads as absent.
    pub proof fn lemma_decode_encode_round_trip(m: ProtocolMessageModel)
        requires
            protocol_well_formed(m),
            m.payload matches Some(p) ==> p.len() > 0,
        ensures
            spec_decode_protocol_message(spec_protocol_message_bytes(m)) == Ok::<
                ProtocolMessageModel,
                DecodeError,
            >(m),
    {
        lemma_auto_spec_u16_to_from_le_bytes();
        lemma_auto_spec_u32_to_from_le_bytes();
        let b = spec_protocol_message_bytes(m);
        let p4 = match m.protocol_vendor_id {
            Some(v) => spec_u16_to_le_bytes(v),
            None => Seq::<u8>::empty(),
        };
        let p5 = match m.acknowledged_message_counter {
            Some(c) => spec_u32_to_le_bytes(c),
            None => Seq::<u8>::empty(),
        };
        let p6 = spec_block_bytes(m.secured_extensions);
        let p7 = match m.payload {
            Some(p) => p,
            None => Seq::<u8>::empty(),
        };
        let o1 = 6 + p4.len() as int;
        let o2 = o1 + p5.len() as int;
        let o3 = o2 + p6.len() as int;
        let o4 = o3 + p7.len() as int;
        assert(b.len() == o4);
        assert(b[0] == m.exchange_flags);
        assert(b[1] == m.protocol_opcode);
        assert(b.subrange(2, 4) =~= spec_u16_to_le_bytes(m.exchange_id));
        assert(b.subrange(4, 6) =~= spec_u16_to_le_bytes(m.protocol_id));
        match m.protocol_vendor_id {
            Some(v) => {
                assert(b.subrange(6, 8) =~= spec_u16_to_le_bytes(v));
            },
            None => (),
        }
        match m.acknowledged_message_counter {
            Some(c) => {
                assert(b.subrange(o1, o1 + 4) =~= spec_u32_to_le_bytes(c));
            },
            None => (),
        }
        match m.secured_extensions {
            Some(e) => {
                assert(b.subrange(o2, o2 + 2) =~= spec_u16_to_le_bytes(e.len() as u16));
                assert(b.subrange(o2 + 2, o2 + 2 + e.len() as int) =~= e);
            },
            None => (),
        }
        assert(spec_decode_block(b, o2, secured_extensions_flag(m.exchange_flags)) =~~= Ok::<
            (Option<Seq<u8>>, int),
            DecodeError,
        >((m.secured_extensions, o3)));
        match m.payload {
            Some(p) => {
                assert(b.subrange(o3, b.len() as int) =~= p);
            },
            None => (),
        }
        assert(spec_decode_protocol_message(b) =~~= Ok::<ProtocolMessageModel, DecodeError>(m));
    }
}

} // verus!

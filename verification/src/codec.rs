//! Shared pieces of the wire codecs: error types and little-endian byte
//! helpers over growable byte buffers.

use vstd::prelude::*;
use vstd::bytes::*;
use vstd::slice::*;

verus! {

/// Why a byte sequence failed to decode.
#[derive(Clone, Copy, Debug, PartialEq, Eq, Structural)]
pub enum DecodeError {
    /// Fewer bytes were available than a present-bit-indicated field requires.
    TruncatedInput,
    /// Unconsumed bytes remained after a structure that claims exact framing.
    TrailingBytes,
}

/// Why a value could not be encoded: the caller-supplied fields break an
/// invariant that the flag bits of the same value promise.
#[derive(Clone, Copy, Debug, PartialEq, Eq, Structural)]
pub enum EncodeError {
    /// An optional field is present or absent against what the flag bits say.
    FieldPresenceMismatch,
    /// A length-prefixed opaque block is longer than its 16-bit prefix allows.
    BlockTooLong,
}

/// Appends every byte of `src` to `out`, in order.
pub fn append_bytes(out: &mut Vec<u8>, src: &[u8])
    ensures
        final(out)@ == old(out)@ + src@,
{
    let mut tmp = slice_to_vec(src);
    out.append(&mut tmp);
}

/// Appends the two little-endian bytes of `x` to `out`.
pub fn append_u16_le(out: &mut Vec<u8>, x: u16)
    ensures
        final(out)@ == old(out)@ + spec_u16_to_le_bytes(x),
{
    let mut tmp = u16_to_le_bytes(x);
    out.append(&mut tmp);
}

/// Appends the four little-endian bytes of `x` to `out`.
pub fn append_u32_le(out: &mut Vec<u8>, x: u32)
    ensures
        final(out)@ == old(out)@ + spec_u32_to_le_bytes(x),
{
    let mut tmp = u32_to_le_bytes(x);
    out.append(&mut tmp);
}

/// Appends the eight little-endian bytes of `x` to `out`.
pub fn append_u64_le(out: &mut Vec<u8>, x: u64)
    ensures
        final(out)@ == old(out)@ + spec_u64_to_le_bytes(x),
{
    let mut tmp = u64_to_le_bytes(x);
    out.append(&mut tmp);
}

/// Reads the little-endian `u16` at `bytes[off..off + 2]`.
pub fn read_u16_le(bytes: &[u8], off: usize) -> (r: u16)
    requires
        off + 2 <= bytes@.len(),
    ensures
        r == spec_u16_from_le_bytes(bytes@.subrange(off as int, off as int + 2)),
{
    // the length call teaches the verifier that the slice fits in usize,
    // so the offset arithmetic below cannot overflow
    let _total: usize = bytes.len();
    u16_from_le_bytes(slice_subrange(bytes, off, off + 2))
}

/// Reads the little-endian `u32` at `bytes[off..off + 4]`.
pub fn read_u32_le(bytes: &[u8], off: usize) -> (r: u32)
    requires
        off + 4 <= bytes@.len(),
    ensures
        r == spec_u32_from_le_bytes(bytes@.subrange(off as int, off as int + 4)),
{
    let _total: usize = bytes.len();  // so off + 4 cannot overflow
    u32_from_le_bytes(slice_subrange(bytes, off, off + 4))
}

/// Reads the little-endian `u64` at `bytes[off..off + 8]`.
pub fn read_u64_le(bytes: &[u8], off: usize) -> (r: u64)
    requires
        off + 8 <= bytes@.len(),
    ensures
        r == spec_u64_from_le_bytes(bytes@.subrange(off as int, off as int + 8)),
{
    let _total: usize = bytes.len();  // so off + 8 cannot overflow
    u64_from_le_bytes(slice_subrange(bytes, off, off + 8))
}

/// The wire bytes of an optional opaque block: absent encodes to nothing,
/// present to a 16-bit little-endian length prefix and the block itself.
pub open spec fn spec_block_bytes(b: Option<Seq<u8>>) -> Seq<u8> {
    match b {
        Some(e) => spec_u16_to_le_bytes(e.len() as u16) + e,
        None => Seq::<u8>::empty(),
    }
}

/// The length-prefixed opaque block at `off`, present iff a flag bit
/// elsewhere in the same message says so, and the offset just past it.
pub open spec fn spec_decode_block(bytes: Seq<u8>, off: int, present: bool) -> Result<
    (Option<Seq<u8>>, int),
    DecodeError,
> {
    if present {
        if bytes.len() < off + 2 {
            Err(DecodeError::TruncatedInput)
        } else {
            let n = spec_u16_from_le_bytes(bytes.subrange(off, off + 2)) as int;
            if bytes.len() < off + 2 + n {
                Err(DecodeError::TruncatedInput)
            } else {
                Ok((Some(bytes.subrange(off + 2, off + 2 + n)), off + 2 + n))
            }
        }
    } else {
        Ok((None, off))
    }
}

/// Appends the 16-bit length prefix of `e`, then `e` itself.
pub fn append_block(out: &mut Vec<u8>, e: &[u8])
    requires
        e@.len() <= 0xFFFF,
    ensures
        final(out)@ == old(out)@ + spec_block_bytes(Some(e@)),
{
    append_u16_le(out, e.len() as u16);
    append_bytes(out, e);
}

/// Reads the length-prefixed opaque block at `off`, when `present`, into a
/// fresh buffer.
pub fn read_block(bytes: &[u8], off: usize, present: bool) -> (r: Result<
    (Option<Vec<u8>>, usize),
    DecodeError,
>)
    requires
        off <= bytes@.len(),
    ensures
        match spec_decode_block(bytes@, off as int, present) {
            Ok((b, n)) => r matches Ok(p) && p.1 == n && (match p.0 {
                Some(v) => b == Some(v@),
                None => b is None,
            }),
            Err(e) => r == Err::<(Option<Vec<u8>>, usize), DecodeError>(e),
        },
{
    if !present {
        return Ok((None, off));
    }
    let len = bytes.len();
    if len - off < 2 {
        return Err(DecodeError::TruncatedInput);
    }
    let n = read_u16_le(bytes, off) as usize;
    if len - (off + 2) < n {
        return Err(DecodeError::TruncatedInput);
    }
    let v = copy_range(bytes, off + 2, n);
    Ok((Some(v), off + 2 + n))
}

/// Copies `bytes[off..off + n]` into a fresh buffer.
pub fn copy_range(bytes: &[u8], off: usize, n: usize) -> (r: Vec<u8>)
    requires
        off + n <= bytes@.len(),
    ensures
        r@ == bytes@.subrange(off as int, off as int + n),
{
    let _total: usize = bytes.len();  // so off + n cannot overflow
    slice_to_vec(slice_subrange(bytes, off, off + n))
}

} // verus!

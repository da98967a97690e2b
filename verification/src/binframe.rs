//! The binary frame layout: an 8-byte header of two little-endian unsigned
//! 32-bit values (width, then height) followed by the raw pixel bytes. A
//! message shorter than its header is invalid and is discarded.

use vstd::prelude::*;
use crate::protocol::ServerMessage;

verus! {

/// Bytes in the binary frame header.
pub const BINARY_FRAME_HEADER_LEN: usize = 8;

/// The little-endian bytes of a 32-bit value, least significant first.
pub open spec fn le32_bytes_of(x: u32) -> Seq<u8> {
    seq![
        (x % 256) as u8,
        ((x / 256) % 256) as u8,
        ((x / 65536) % 256) as u8,
        ((x / 16777216) % 256) as u8,
    ]
}

/// The value four little-endian bytes denote.
pub open spec fn le32_val(b0: u8, b1: u8, b2: u8, b3: u8) -> int {
    b0 + 256 * b1 + 65536 * b2 + 16777216 * b3
}

/// A whole binary frame: header, then payload.
pub open spec fn spec_encode_binary(width: u32, height: u32, data: Seq<u8>) -> Seq<u8> {
    le32_bytes_of(width) + le32_bytes_of(height) + data
}

/// What a binary message decodes to: nothing when shorter than the header,
/// else the two dimensions and the remaining bytes as payload.
pub open spec fn spec_decode_binary(b: Seq<u8>) -> Option<(u32, u32, Seq<u8>)> {
    if b.len() < 8 {
        None
    } else {
        Some(
            (
                le32_val(b[0], b[1], b[2], b[3]) as u32,
                le32_val(b[4], b[5], b[6], b[7]) as u32,
                b.skip(8),
            ),
        )
    }
}

/// Reading the little-endian bytes of `x` back gives `x`.
pub proof fn lemma_le32_inverse(x: u32)
    ensures
        le32_val(
            (x % 256) as u8,
            ((x / 256) % 256) as u8,
            ((x / 65536) % 256) as u8,
            ((x / 16777216) % 256) as u8,
        ) == x,
{
    let xi = x as int;
    vstd::arithmetic::div_mod::lemma_fundamental_div_mod(xi, 256);
    vstd::arithmetic::div_mod::lemma_fundamental_div_mod(xi / 256, 256);
    vstd::arithmetic::div_mod::lemma_fundamental_div_mod(xi / 65536, 256);
    assert(xi / 256 / 256 == xi / 65536) by {
        vstd::arithmetic::div_mod::lemma_div_denominator(xi, 256, 256);
    }
    assert(xi / 65536 / 256 == xi / 16777216) by {
        vstd::arithmetic::div_mod::lemma_div_denominator(xi, 65536, 256);
        vstd::arithmetic::div_mod::lemma_div_denominator(xi / 65536, 256, 1);
    }
    assert(xi / 16777216 < 256);
}

/// Decoding an encoded frame gives back the width, the height, and exactly
/// the payload bytes.
pub proof fn lemma_binary_frame_roundtrip(width: u32, height: u32, data: Seq<u8>)
    ensures
        spec_decode_binary(spec_encode_binary(width, height, data)) == Some(
            (width, height, data),
        ),
{
    let b = spec_encode_binary(width, height, data);
    assert(b.len() == 8 + data.len());
    lemma_le32_inverse(width);
    lemma_le32_inverse(height);
    assert(b[0] == (width % 256) as u8 && b[1] == ((width / 256) % 256) as u8 && b[2] == ((width
        / 65536) % 256) as u8 && b[3] == ((width / 16777216) % 256) as u8);
    assert(b[4] == (height % 256) as u8 && b[5] == ((height / 256) % 256) as u8 && b[6] == ((height
        / 65536) % 256) as u8 && b[7] == ((height / 16777216) % 256) as u8);
    assert(b.skip(8) =~= data);
}

/// The little-endian bytes of `x`, least significant first.
pub fn u32_to_le_bytes(x: u32) -> (r: Vec<u8>)
    ensures
        r@ == le32_bytes_of(x),
{
    let mut r: Vec<u8> = Vec::new();
    r.push((x % 256) as u8);
    r.push(((x / 256) % 256) as u8);
    r.push(((x / 65536) % 256) as u8);
    r.push(((x / 16777216) % 256) as u8);
    assert(r@ =~= le32_bytes_of(x));
    r
}

/// Encodes a frame in the binary layout: width and height little-endian,
/// then the payload.
pub fn encode_binary_frame(width: u32, height: u32, data: &Vec<u8>) -> (r: Vec<u8>)
    ensures
        r@ == spec_encode_binary(width, height, data@),
{
    let mut r = u32_to_le_bytes(width);
    let mut h = u32_to_le_bytes(height);
    r.append(&mut h);
    let mut i: usize = 0;
    while i < data.len()
        invariant
            i <= data.len(),
            r@ == le32_bytes_of(width) + le32_bytes_of(height) + data@.take(i as int),
        decreases data.len() - i,
    {
        r.push(data[i]);
        assert(r@ =~= le32_bytes_of(width) + le32_bytes_of(height) + data@.take(i + 1));
        i = i + 1;
    }
    assert(r@ =~= spec_encode_binary(width, height, data@));
    r
}

/// Decodes a binary message: a frame when the header is complete, nothing
/// (never a crash) when the message is shorter than the header.
pub fn decode_binary_frame(bytes: &Vec<u8>) -> (r: Option<ServerMessage>)
    ensures
        r is Some <==> bytes@.len() >= 8,
        r matches Some(m) ==> (m matches ServerMessage::Frame { width, height, data }
            && spec_decode_binary(bytes@) == Some((width, height, data@))),
    {
    if bytes.len() < 8 {
        return None;
    }
    let width: u32 = (bytes[0] as u32) + 256 * (bytes[1] as u32) + 65536 * (bytes[2] as u32)
        + 16777216 * (bytes[3] as u32);
    let height: u32 = (bytes[4] as u32) + 256 * (bytes[5] as u32) + 65536 * (bytes[6] as u32)
        + 16777216 * (bytes[7] as u32);
    let mut data: Vec<u8> = Vec::new();
    let mut i: usize = 8;
    while i < bytes.len()
        invariant
            8 <= i <= bytes.len(),
            data@ == bytes@.subrange(8, i as int),
        decreases bytes.len() - i,
    {
        data.push(bytes[i]);
        assert(data@ =~= bytes@.subrange(8, i + 1));
        i = i + 1;
    }
    assert(data@ =~= bytes@.skip(8));
    Some(ServerMessage::Frame { width, height, data })
}

} // verus!

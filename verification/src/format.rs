//! Byte layout of a bundle: host image, compressed payload, name field,
//! twelve bytes of metadata, ten bytes of magic marker.

use vstd::prelude::*;
use vstd::string::StringSliceAdditionalSpecFns;
use vstd::utf8::{encode_scalar, encode_utf8, has_width_1_encoding, valid_utf8};
use crate::error::RexError;

verus! {

/// Length of the magic marker in bytes.
pub const MAGIC_LEN: usize = 10;

/// Length of the encoded metadata record in bytes.
pub const METADATA_LEN: usize = 12;

/// Longest name field, in bytes, that a bundle may carry.
pub const MAX_NAME_LEN: usize = 256;

/// Permission bits of a bundle: readable and executable by all, writable by
/// its owner.
pub const BUNDLE_MODE: u32 = 0o755;

/// The marker that closes every bundle: the ASCII text `REX_BUNDLE`.
pub open spec fn magic_marker() -> Seq<u8> {
    seq![
        'R' as u8, 'E' as u8, 'X' as u8, '_' as u8, 'B' as u8,
        'U' as u8, 'N' as u8, 'D' as u8, 'L' as u8, 'E' as u8,
    ]
}

/// The marker as bytes to write.
pub fn magic_bytes() -> (m: Vec<u8>)
    ensures
        m@ == magic_marker(),
{
    let m: Vec<u8> = vec![
        'R' as u8, 'E' as u8, 'X' as u8, '_' as u8, 'B' as u8,
        'U' as u8, 'N' as u8, 'D' as u8, 'L' as u8, 'E' as u8,
    ];
    assert(m@ =~= magic_marker());
    m
}

/// The number that four bytes spell, least significant byte first.
pub open spec fn le_u32(b: Seq<u8>) -> int
    recommends
        b.len() == 4,
{
    b[0] + 0x100 * b[1] + 0x1_0000 * b[2] + 0x100_0000 * b[3]
}

/// The number that eight bytes spell, least significant byte first.
pub open spec fn le_u64(b: Seq<u8>) -> int
    recommends
        b.len() == 8,
{
    le_u32(b.subrange(0, 4)) + 0x1_0000_0000 * le_u32(b.subrange(4, 8))
}

/// The four bytes that spell `x`, least significant byte first.
pub open spec fn u32_le(x: u32) -> Seq<u8> {
    seq![
        (x % 0x100) as u8,
        (x / 0x100 % 0x100) as u8,
        (x / 0x1_0000 % 0x100) as u8,
        (x / 0x100_0000 % 0x100) as u8,
    ]
}

/// The eight bytes that spell `x`, least significant byte first.
pub open spec fn u64_le(x: u64) -> Seq<u8> {
    u32_le((x % 0x1_0000_0000) as u32) + u32_le((x / 0x1_0000_0000) as u32)
}

/// Reading back what `u32_le` wrote gives the number again.
pub proof fn u32_le_round_trip(x: u32)
    ensures
        u32_le(x).len() == 4,
        le_u32(u32_le(x)) == x,
{
}

/// Reading back what `u64_le` wrote gives the number again.
pub proof fn u64_le_round_trip(x: u64)
    ensures
        u64_le(x).len() == 8,
        le_u64(u64_le(x)) == x,
{
    let lo: u32 = (x % 0x1_0000_0000) as u32;
    let hi: u32 = (x / 0x1_0000_0000) as u32;
    u32_le_round_trip(lo);
    u32_le_round_trip(hi);
    assert(u64_le(x).subrange(0, 4) =~= u32_le(lo));
    assert(u64_le(x).subrange(4, 8) =~= u32_le(hi));
}

/// Four bytes are what `u32_le` writes for the number they spell.
pub proof fn le_u32_round_trip(b: Seq<u8>)
    requires
        b.len() == 4,
    ensures
        0 <= le_u32(b) <= u32::MAX,
        u32_le(le_u32(b) as u32) == b,
{
    let b0: int = b[0] as int;
    let b1: int = b[1] as int;
    let b2: int = b[2] as int;
    let b3: int = b[3] as int;
    let x: int = le_u32(b);
    assert(x == b0 + 0x100 * (b1 + 0x100 * (b2 + 0x100 * b3)));
    assert(x % 0x100 == b0 && x / 0x100 == b1 + 0x100 * (b2 + 0x100 * b3));
    let y: int = x / 0x100;
    assert(y % 0x100 == b1 && y / 0x100 == b2 + 0x100 * b3);
    let z: int = y / 0x100;
    assert(z % 0x100 == b2 && z / 0x100 == b3);
    assert(x / 0x1_0000 == z);
    assert(x / 0x100_0000 == b3);
    assert(u32_le(x as u32) =~= b);
}

/// Eight bytes are what `u64_le` writes for the number they spell.
pub proof fn le_u64_round_trip(b: Seq<u8>)
    requires
        b.len() == 8,
    ensures
        0 <= le_u64(b) <= u64::MAX,
        u64_le(le_u64(b) as u64) == b,
{
    let lo = b.subrange(0, 4);
    let hi = b.subrange(4, 8);
    le_u32_round_trip(lo);
    le_u32_round_trip(hi);
    let x: u64 = le_u64(b) as u64;
    assert((x % 0x1_0000_0000) as u32 == le_u32(lo));
    assert((x / 0x1_0000_0000) as u32 == le_u32(hi));
    assert(u64_le(x) =~= lo + hi);
    assert(lo + hi =~= b);
}

fn read_u32_le(b: &[u8], at: usize) -> (x: u32)
    requires
        at + 4 <= b@.len(),
    ensures
        x == le_u32(b@.subrange(at as int, at + 4)),
{
    let b0: u32 = b[at] as u32;
    let b1: u32 = b[at + 1] as u32;
    let b2: u32 = b[at + 2] as u32;
    let b3: u32 = b[at + 3] as u32;
    b0 + 0x100 * b1 + 0x1_0000 * b2 + 0x100_0000 * b3
}

fn push_u32_le(out: &mut Vec<u8>, x: u32)
    ensures
        final(out)@ == old(out)@ + u32_le(x),
{
    out.push((x % 0x100) as u8);
    out.push((x / 0x100 % 0x100) as u8);
    out.push((x / 0x1_0000 % 0x100) as u8);
    out.push((x / 0x100_0000 % 0x100) as u8);
    assert(out@ =~= old(out)@ + u32_le(x));
}

/// The fixed record that precedes the marker.
#[derive(Clone, Copy, Debug, PartialEq, Eq, Structural)]
pub struct BundleMetadata {
    /// Byte length of the compressed stream.
    pub payload_size: u64,
    /// Byte length of the name field.
    pub target_bin_name_len: u32,
}

impl BundleMetadata {
    /// The twelve bytes of the record: the payload size in eight bytes, then
    /// the name length in four, both least significant byte first.
    pub open spec fn spec_encode(self) -> Seq<u8> {
        u64_le(self.payload_size) + u32_le(self.target_bin_name_len)
    }

    /// The record that twelve bytes spell.
    pub open spec fn spec_decode(b: Seq<u8>) -> BundleMetadata
        recommends
            b.len() == 12,
    {
        BundleMetadata {
            payload_size: le_u64(b.subrange(0, 8)) as u64,
            target_bin_name_len: le_u32(b.subrange(8, 12)) as u32,
        }
    }

    /// Writes the record.
    pub fn encode(&self) -> (out: Vec<u8>)
        ensures
            out@ == self.spec_encode(),
            out@.len() == METADATA_LEN,
    {
        let mut out: Vec<u8> = Vec::new();
        push_u32_le(&mut out, (self.payload_size % 0x1_0000_0000) as u32);
        push_u32_le(&mut out, (self.payload_size / 0x1_0000_0000) as u32);
        push_u32_le(&mut out, self.target_bin_name_len);
        assert(out@ =~= self.spec_encode());
        out
    }

    /// Reads the record that starts at `at`.
    pub fn decode(b: &[u8], at: usize) -> (m: BundleMetadata)
        requires
            at + METADATA_LEN <= b@.len(),
        ensures
            m == Self::spec_decode(b@.subrange(at as int, at + METADATA_LEN)),
    {
        let total: usize = b.len();
        assert(at + METADATA_LEN <= total);
        let lo: u32 = read_u32_le(b, at);
        let hi: u32 = read_u32_le(b, at + 4);
        let len: u32 = read_u32_le(b, at + 8);
        proof {
            let rec = b@.subrange(at as int, at + METADATA_LEN);
            assert(rec.subrange(0, 8).subrange(0, 4) =~= b@.subrange(at as int, at + 4));
            assert(rec.subrange(0, 8).subrange(4, 8) =~= b@.subrange(at + 4, at + 8));
            assert(rec.subrange(8, 12) =~= b@.subrange(at + 8, at + 12));
        }
        BundleMetadata {
            payload_size: (lo as u64) + 0x1_0000_0000 * (hi as u64),
            target_bin_name_len: len,
        }
    }
}

/// Decoding an encoded record gives the record again.
pub proof fn metadata_round_trip(m: BundleMetadata)
    ensures
        m.spec_encode().len() == 12,
        BundleMetadata::spec_decode(m.spec_encode()) == m,
{
    u64_le_round_trip(m.payload_size);
    u32_le_round_trip(m.target_bin_name_len);
    let e = m.spec_encode();
    assert(e.subrange(0, 8) =~= u64_le(m.payload_size));
    assert(e.subrange(8, 12) =~= u32_le(m.target_bin_name_len));
}

/// Any twelve bytes are the encoding of the record that they spell.
pub proof fn metadata_bytes_round_trip(b: Seq<u8>)
    requires
        b.len() == 12,
    ensures
        BundleMetadata::spec_decode(b).spec_encode() == b,
{
    le_u64_round_trip(b.subrange(0, 8));
    le_u32_round_trip(b.subrange(8, 12));
    assert(b.subrange(0, 8) + b.subrange(8, 12) =~= b);
}

/// A name that a bundle may carry: between 1 and 256 bytes of UTF-8, none of
/// them a path separator.
pub open spec fn valid_name(name: Seq<u8>) -> bool {
    &&& 0 < name.len() <= MAX_NAME_LEN
    &&& valid_utf8(name)
    &&& forall|i: int| 0 <= i < name.len() ==> name[i] != '/' as u8
}

proof fn byte_with_high_bit_is_no_separator(low: u8)
    by (bit_vector)
    ensures
        0x80u8 | low != 0x2fu8,
        0xC0u8 | low != 0x2fu8,
        0xE0u8 | low != 0x2fu8,
        0xF0u8 | low != 0x2fu8,
{
}

proof fn low_scalar_is_its_own_byte(scalar: u32)
    by (bit_vector)
    requires
        scalar <= 0x7F,
    ensures
        scalar & 0x7F == scalar,
{
}

proof fn scalar_has_no_separator(c: char)
    requires
        c != '/',
    ensures
        encode_scalar(c as u32).len() > 0,
        forall|i: int|
            0 <= i < encode_scalar(c as u32).len() ==> #[trigger] encode_scalar(c as u32)[i] != '/' as u8,
{
    let scalar: u32 = c as u32;
    if has_width_1_encoding(scalar) {
        low_scalar_is_its_own_byte(scalar);
    } else {
        byte_with_high_bit_is_no_separator(((scalar >> 6) & 0x1F) as u8);
        byte_with_high_bit_is_no_separator(((scalar >> 12) & 0x0F) as u8);
        byte_with_high_bit_is_no_separator(((scalar >> 18) & 0x7) as u8);
        byte_with_high_bit_is_no_separator((scalar & 0x3F) as u8);
        byte_with_high_bit_is_no_separator(((scalar >> 6) & 0x3F) as u8);
        byte_with_high_bit_is_no_separator(((scalar >> 12) & 0x3F) as u8);
    }
}

/// A text without a separator is encoded without one: no byte of its UTF-8
/// encoding is `/`, and the encoding is empty only where the text is.
pub proof fn encoded_text_has_no_separator(text: Seq<char>)
    requires
        forall|i: int| 0 <= i < text.len() ==> text[i] != '/',
    ensures
        text.len() > 0 ==> encode_utf8(text).len() > 0,
        forall|i: int|
            0 <= i < encode_utf8(text).len() ==> #[trigger] encode_utf8(text)[i] != '/' as u8,
    decreases text.len(),
{
    if text.len() > 0 {
        let rest = text.drop_first();
        assert forall|i: int| 0 <= i < rest.len() implies rest[i] != '/' by {
            assert(rest[i] == text[i + 1]);
        }
        encoded_text_has_no_separator(rest);
        scalar_has_no_separator(text[0]);
        let head = encode_scalar(text[0] as u32);
        let tail = encode_utf8(rest);
        assert(encode_utf8(text) == head + tail);
        assert forall|i: int| 0 <= i < (head + tail).len() implies #[trigger] (head + tail)[i]
            != '/' as u8 by {
            if i < head.len() {
                assert((head + tail)[i] == head[i]);
            } else {
                assert((head + tail)[i] == tail[i - head.len()]);
            }
        }
    }
}

/// The trailer of a bundle: name field, metadata record, marker.
pub open spec fn trailer(name: Seq<u8>, payload_size: u64) -> Seq<u8> {
    name + (BundleMetadata {
        payload_size,
        target_bin_name_len: name.len() as u32,
    }).spec_encode() + magic_marker()
}

/// The whole bundle: the host image unchanged, the payload, the trailer.
pub open spec fn bundle_image(host: Seq<u8>, payload: Seq<u8>, name: Seq<u8>) -> Seq<u8> {
    host + payload + trailer(name, payload.len() as u64)
}

/// Whether no byte of `name` is a path separator.
pub fn has_no_separator(name: &[u8]) -> (ok: bool)
    ensures
        ok == forall|i: int| 0 <= i < name@.len() ==> name@[i] != '/' as u8,
{
    let mut i: usize = 0;
    while i < name.len()
        invariant
            i <= name@.len(),
            forall|j: int| 0 <= j < i ==> name@[j] != '/' as u8,
        decreases name@.len() - i,
    {
        if name[i] == '/' as u8 {
            return false;
        }
        i += 1;
    }
    true
}

fn append_bytes(out: &mut Vec<u8>, src: &[u8])
    ensures
        final(out)@ == old(out)@ + src@,
{
    let mut i: usize = 0;
    while i < src.len()
        invariant
            i <= src@.len(),
            out@ == old(out)@ + src@.subrange(0, i as int),
        decreases src@.len() - i,
    {
        out.push(src[i]);
        i += 1;
        assert(out@ =~= old(out)@ + src@.subrange(0, i as int));
    }
    assert(src@.subrange(0, src@.len() as int) =~= src@);
}

/// Writes the trailer that follows a payload of `payload_size` bytes in the
/// bundle of the target named `name`. A name that no bundle may carry is
/// refused.
pub fn write_trailer(name: &str, payload_size: u64) -> (r: Result<Vec<u8>, RexError>)
    ensures
        r is Ok <==> valid_name(name.spec_bytes()),
        r matches Ok(t) ==> t@ == trailer(name.spec_bytes(), payload_size),
        r matches Err(e) ==> e == RexError::InvalidName,
{
    broadcast use vstd::utf8::encode_utf8_valid_utf8;
    let bytes: &[u8] = name.as_bytes();
    if bytes.len() == 0 || bytes.len() > MAX_NAME_LEN || !has_no_separator(bytes) {
        return Err(RexError::InvalidName);
    }
    let meta = BundleMetadata { payload_size, target_bin_name_len: bytes.len() as u32 };
    let mut out: Vec<u8> = Vec::new();
    append_bytes(&mut out, bytes);
    let rec: Vec<u8> = meta.encode();
    append_bytes(&mut out, rec.as_slice());
    let magic: Vec<u8> = magic_bytes();
    append_bytes(&mut out, magic.as_slice());
    assert(out@ =~= trailer(name.spec_bytes(), payload_size));
    Ok(out)
}

/// Builds a bundle in memory: the host image, the payload, the trailer.
pub fn assemble_bundle(host: &[u8], payload: &[u8], name: &str) -> (r: Result<Vec<u8>, RexError>)
    ensures
        r is Ok <==> valid_name(name.spec_bytes()),
        r matches Ok(image) ==> image@ == bundle_image(host@, payload@, name.spec_bytes()),
        r matches Err(e) ==> e == RexError::InvalidName,
{
    match write_trailer(name, payload.len() as u64) {
        Ok(t) => {
            let mut out: Vec<u8> = Vec::new();
            append_bytes(&mut out, host);
            append_bytes(&mut out, payload);
            append_bytes(&mut out, t.as_slice());
            assert(out@ =~= bundle_image(host@, payload@, name.spec_bytes()));
            Ok(out)
        },
        Err(e) => Err(e),
    }
}

} // verus!

//! Shared wire primitives: little-endian integer encodings, padding rules,
//! and the common layout of a client request.
//!
//! Every multi-byte integer on this connection travels in little-endian
//! order, the byte order this client announces at connection setup.

use vstd::prelude::*;

verus! {

/// Value of two little-endian bytes.
pub open spec fn le16(b0: u8, b1: u8) -> u16 {
    (b0 + b1 * 0x100) as u16
}

/// Value of four little-endian bytes.
pub open spec fn le32(b0: u8, b1: u8, b2: u8, b3: u8) -> u32 {
    (b0 + b1 * 0x100 + b2 * 0x10000 + b3 * 0x1000000) as u32
}

/// Value of eight little-endian bytes.
pub open spec fn le64(b0: u8, b1: u8, b2: u8, b3: u8, b4: u8, b5: u8, b6: u8, b7: u8) -> u64 {
    (b0 + b1 * 0x100 + b2 * 0x10000 + b3 * 0x1000000 + b4 * 0x100000000 + b5 * 0x10000000000
        + b6 * 0x1000000000000 + b7 * 0x100000000000000) as u64
}

/// The 16-bit value stored at byte offset `i` of `s`.
pub open spec fn le16_at(s: Seq<u8>, i: int) -> u16
    recommends 0 <= i, i + 2 <= s.len(),
{
    le16(s[i], s[i + 1])
}

/// The 32-bit value stored at byte offset `i` of `s`.
pub open spec fn le32_at(s: Seq<u8>, i: int) -> u32
    recommends 0 <= i, i + 4 <= s.len(),
{
    le32(s[i], s[i + 1], s[i + 2], s[i + 3])
}

/// The 64-bit value stored at byte offset `i` of `s`.
pub open spec fn le64_at(s: Seq<u8>, i: int) -> u64
    recommends 0 <= i, i + 8 <= s.len(),
{
    le64(s[i], s[i + 1], s[i + 2], s[i + 3], s[i + 4], s[i + 5], s[i + 6], s[i + 7])
}

/// Little-endian encoding of a 16-bit value.
pub open spec fn u16_le_bytes(v: u16) -> Seq<u8> {
    seq![(v % 0x100) as u8, ((v / 0x100) % 0x100) as u8]
}

/// Little-endian encoding of a 32-bit value.
pub open spec fn u32_le_bytes(v: u32) -> Seq<u8> {
    seq![
        (v % 0x100) as u8,
        ((v / 0x100) % 0x100) as u8,
        ((v / 0x10000) % 0x100) as u8,
        ((v / 0x1000000) % 0x100) as u8,
    ]
}

/// Little-endian encoding of a 64-bit value.
pub open spec fn u64_le_bytes(v: u64) -> Seq<u8> {
    seq![
        (v % 0x100) as u8,
        ((v / 0x100) % 0x100) as u8,
        ((v / 0x10000) % 0x100) as u8,
        ((v / 0x1000000) % 0x100) as u8,
        ((v / 0x100000000) % 0x100) as u8,
        ((v / 0x10000000000) % 0x100) as u8,
        ((v / 0x1000000000000) % 0x100) as u8,
        ((v / 0x100000000000000) % 0x100) as u8,
    ]
}

/// A sequence of `n` zero bytes.
pub open spec fn zeros(n: nat) -> Seq<u8> {
    Seq::new(n, |i: int| 0u8)
}

/// How many bytes of padding bring a length of `n` up to a multiple of 4.
pub open spec fn pad4(n: nat) -> nat {
    (((4 - (n % 4) as int) % 4) as nat)
}

/// Decoding the encoding of a 16-bit value gives the value back.
pub proof fn lemma_le16_roundtrip(v: u16)
    ensures le16(u16_le_bytes(v)[0], u16_le_bytes(v)[1]) == v,
{
}

/// Decoding the encoding of a 32-bit value gives the value back.
pub proof fn lemma_le32_roundtrip(v: u32)
    ensures le32(u32_le_bytes(v)[0], u32_le_bytes(v)[1], u32_le_bytes(v)[2], u32_le_bytes(v)[3]) == v,
{
}

/// Append the two little-endian bytes of `v`.
pub fn push_u16(out: &mut Vec<u8>, v: u16)
    ensures final(out)@ == old(out)@ + u16_le_bytes(v),
{
    out.push((v % 0x100) as u8);
    out.push(((v / 0x100) % 0x100) as u8);
    assert(final(out)@ =~= old(out)@ + u16_le_bytes(v));
}

/// Append the four little-endian bytes of `v`.
pub fn push_u32(out: &mut Vec<u8>, v: u32)
    ensures final(out)@ == old(out)@ + u32_le_bytes(v),
{
    out.push((v % 0x100) as u8);
    out.push(((v / 0x100) % 0x100) as u8);
    out.push(((v / 0x10000) % 0x100) as u8);
    out.push(((v / 0x1000000) % 0x100) as u8);
    assert(final(out)@ =~= old(out)@ + u32_le_bytes(v));
}

/// Append the eight little-endian bytes of `v`.
pub fn push_u64(out: &mut Vec<u8>, v: u64)
    ensures final(out)@ == old(out)@ + u64_le_bytes(v),
{
    out.push((v % 0x100) as u8);
    out.push(((v / 0x100) % 0x100) as u8);
    out.push(((v / 0x10000) % 0x100) as u8);
    out.push(((v / 0x1000000) % 0x100) as u8);
    out.push(((v / 0x100000000) % 0x100) as u8);
    out.push(((v / 0x10000000000) % 0x100) as u8);
    out.push(((v / 0x1000000000000) % 0x100) as u8);
    out.push(((v / 0x100000000000000) % 0x100) as u8);
    assert(final(out)@ =~= old(out)@ + u64_le_bytes(v));
}

/// Read the 16-bit value stored at byte offset `i`.
pub fn read_u16(bytes: &Vec<u8>, i: usize) -> (r: u16)
    requires i + 2 <= bytes@.len(),
    ensures r == le16_at(bytes@, i as int),
{
    let n: usize = bytes.len();
    bytes[i] as u16 + (bytes[i + 1] as u16) * 0x100
}

/// Read the 32-bit value stored at byte offset `i`.
pub fn read_u32(bytes: &Vec<u8>, i: usize) -> (r: u32)
    requires i + 4 <= bytes@.len(),
    ensures r == le32_at(bytes@, i as int),
{
    let n: usize = bytes.len();
    bytes[i] as u32 + (bytes[i + 1] as u32) * 0x100 + (bytes[i + 2] as u32) * 0x10000
        + (bytes[i + 3] as u32) * 0x1000000
}

/// Read the 64-bit value stored at byte offset `i`.
pub fn read_u64(bytes: &Vec<u8>, i: usize) -> (r: u64)
    requires i + 8 <= bytes@.len(),
    ensures r == le64_at(bytes@, i as int),
{
    let n: usize = bytes.len();
    bytes[i] as u64 + (bytes[i + 1] as u64) * 0x100 + (bytes[i + 2] as u64) * 0x10000
        + (bytes[i + 3] as u64) * 0x1000000 + (bytes[i + 4] as u64) * 0x100000000
        + (bytes[i + 5] as u64) * 0x10000000000 + (bytes[i + 6] as u64) * 0x1000000000000
        + (bytes[i + 7] as u64) * 0x100000000000000
}

/// Copy the `n` bytes starting at `start` into a fresh vector.
pub fn copy_range(bytes: &Vec<u8>, start: usize, n: usize) -> (r: Vec<u8>)
    requires start + n <= bytes@.len(),
    ensures r@ == bytes@.subrange(start as int, start as int + n as int),
{
    let len: usize = bytes.len();
    let mut r: Vec<u8> = Vec::new();
    let mut j: usize = 0;
    while j < n
        invariant
            len == bytes@.len(),
            start + n <= bytes@.len(),
            j <= n,
            r@ == bytes@.subrange(start as int, start as int + j as int),
        decreases n - j,
    {
        r.push(bytes[start + j]);
        j = j + 1;
        assert(r@ =~= bytes@.subrange(start as int, start as int + j as int));
    }
    r
}

/// Append `n` zero bytes.
pub fn push_zeros(out: &mut Vec<u8>, n: usize)
    ensures final(out)@ == old(out)@ + zeros(n as nat),
{
    let mut j: usize = 0;
    while j < n
        invariant
            j <= n,
            out@ == old(out)@ + zeros(j as nat),
        decreases n - j,
    {
        out.push(0u8);
        j = j + 1;
        assert(out@ =~= old(out)@ + zeros(j as nat));
    }
}

/// Whether two byte vectors hold the same bytes.
pub fn bytes_eq(a: &Vec<u8>, b: &Vec<u8>) -> (r: bool)
    ensures r <==> a@ == b@,
{
    if a.len() != b.len() {
        assert(a@ != b@);
        return false;
    }
    let mut j: usize = 0;
    while j < a.len()
        invariant
            a@.len() == b@.len(),
            j <= a@.len(),
            forall|i: int| 0 <= i < j ==> a@[i] == b@[i],
        decreases a@.len() - j,
    {
        if a[j] != b[j] {
            return false;
        }
        j = j + 1;
    }
    assert(a@ =~= b@);
    true
}

/// The value of a request's 16-bit length field: the total length in 4-byte
/// units, or zero where that count does not fit in 16 bits.
pub open spec fn spec_len_field(total: nat) -> u16 {
    if total / 4 <= 0xFFFF {
        ((total / 4) as u16)
    } else {
        0u16
    }
}

/// Layout shared by every client request: major opcode, minor opcode, the
/// 16-bit length field counting 4-byte units, the fixed `body`, then the
/// variable `payload` padded with zeros to the next 4-byte boundary.
pub open spec fn spec_request(major_opcode: u8, minor_opcode: u8, body: Seq<u8>, payload: Seq<u8>) -> Seq<u8> {
    let unpadded = 4 + body.len() + payload.len();
    seq![major_opcode, minor_opcode] + u16_le_bytes(spec_len_field(unpadded + pad4(unpadded)))
        + body + payload + zeros(pad4(unpadded))
}

/// Build one request: header, fixed body, payload, and zero padding.
pub fn build_request(major_opcode: u8, minor_opcode: u8, body: &Vec<u8>, payload: &Vec<u8>) -> (r: Vec<u8>)
    requires body@.len() + payload@.len() + 8 <= usize::MAX,
    ensures r@ == spec_request(major_opcode, minor_opcode, body@, payload@),
{
    let unpadded: usize = 4 + body.len() + payload.len();
    let pad: usize = (4 - (unpadded % 4)) % 4;
    let total: usize = unpadded + pad;
    let len_field: u16 = if total / 4 <= 0xFFFF {
        (total / 4) as u16
    } else {
        0
    };
    assert(len_field == spec_len_field((unpadded + pad4(unpadded as nat)) as nat));
    let mut r: Vec<u8> = Vec::new();
    r.push(major_opcode);
    r.push(minor_opcode);
    assert(r@ =~= seq![major_opcode, minor_opcode]);
    push_u16(&mut r, len_field);
    append_bytes(&mut r, body);
    append_bytes(&mut r, payload);
    push_zeros(&mut r, pad);
    assert(r@ =~= spec_request(major_opcode, minor_opcode, body@, payload@));
    r
}

/// Append every byte of `src`.
pub fn append_bytes(out: &mut Vec<u8>, src: &Vec<u8>)
    ensures final(out)@ == old(out)@ + src@,
{
    let mut j: usize = 0;
    while j < src.len()
        invariant
            j <= src@.len(),
            out@ == old(out)@ + src@.subrange(0, j as int),
        decreases src@.len() - j,
    {
        out.push(src[j]);
        j = j + 1;
        assert(out@ =~= old(out)@ + src@.subrange(0, j as int));
    }
    assert(src@.subrange(0, src@.len() as int) =~= src@);
}

/// Header of one client request, as a request parser receives it.
#[derive(Debug, Clone, Copy, PartialEq, Eq, Structural)]
pub struct RequestHeader {
    pub major_opcode: u8,
    pub minor_opcode: u8,
    pub remaining_length: u16,
}

/// The `n` 32-bit values stored little-endian from byte offset `pos`.
pub open spec fn spec_u32_list(s: Seq<u8>, pos: int, n: nat) -> Seq<u32> {
    Seq::new(n, |i: int| le32_at(s, pos + 4 * i))
}

/// The `n` 64-bit values stored little-endian from byte offset `pos`.
pub open spec fn spec_u64_list(s: Seq<u8>, pos: int, n: nat) -> Seq<u64> {
    Seq::new(n, |i: int| le64_at(s, pos + 8 * i))
}

/// Read `n` 32-bit values from byte offset `pos`.
pub fn parse_u32_list(bytes: &Vec<u8>, pos: usize, n: usize) -> (r: Vec<u32>)
    requires pos + 4 * n <= bytes@.len(),
    ensures r@ == spec_u32_list(bytes@, pos as int, n as nat),
{
    let len: usize = bytes.len();
    let mut r: Vec<u32> = Vec::new();
    let mut j: usize = 0;
    while j < n
        invariant
            len == bytes@.len(),
            pos + 4 * n <= bytes@.len(),
            j <= n,
            r@ == spec_u32_list(bytes@, pos as int, j as nat),
        decreases n - j,
    {
        r.push(read_u32(bytes, pos + 4 * j));
        j = j + 1;
        assert(r@ =~= spec_u32_list(bytes@, pos as int, j as nat));
    }
    r
}

/// Read `n` 64-bit values from byte offset `pos`.
pub fn parse_u64_list(bytes: &Vec<u8>, pos: usize, n: usize) -> (r: Vec<u64>)
    requires pos + 8 * n <= bytes@.len(),
    ensures r@ == spec_u64_list(bytes@, pos as int, n as nat),
{
    let len: usize = bytes.len();
    let mut r: Vec<u64> = Vec::new();
    let mut j: usize = 0;
    while j < n
        invariant
            len == bytes@.len(),
            pos + 8 * n <= bytes@.len(),
            j <= n,
            r@ == spec_u64_list(bytes@, pos as int, j as nat),
        decreases n - j,
    {
        r.push(read_u64(bytes, pos + 8 * j));
        j = j + 1;
        assert(r@ =~= spec_u64_list(bytes@, pos as int, j as nat));
    }
    r
}

} // verus!

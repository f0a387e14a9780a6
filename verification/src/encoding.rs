//! Fixed-width big-endian encodings used by the catalog.
//!
//! Integers are stored big-endian and booleans as a single signed byte
//! holding 0 or 1; both directions are verified to be inverses.

use vstd::prelude::*;

verus! {

/// The `u32` denoted by four big-endian bytes.
pub open spec fn be_u32(s: Seq<u8>) -> u32
    recommends
        s.len() == 4,
{
    (s[0] as u32) << 24 | (s[1] as u32) << 16 | (s[2] as u32) << 8 | (s[3] as u32)
}

/// The four big-endian bytes of a `u32`.
pub open spec fn be_bytes_of_u32(x: u32) -> Seq<u8> {
    seq![(x >> 24) as u8, (x >> 16) as u8, (x >> 8) as u8, x as u8]
}

/// Reads a `u32` out of its four-byte big-endian encoding.
pub fn bytes_to_u32(bytes: &[u8]) -> (r: u32)
    requires
        bytes@.len() == 4,
    ensures
        r == be_u32(bytes@),
{
    let b0 = bytes[0] as u32;
    let b1 = bytes[1] as u32;
    let b2 = bytes[2] as u32;
    let b3 = bytes[3] as u32;
    b0 << 24 | b1 << 16 | b2 << 8 | b3
}

/// Writes a `u32` as four big-endian bytes.
pub fn u32_to_bytes(x: u32) -> (r: Vec<u8>)
    ensures
        r@ == be_bytes_of_u32(x),
        r@.len() == 4,
{
    let mut v: Vec<u8> = Vec::new();
    v.push((x >> 24) as u8);
    v.push((x >> 16) as u8);
    v.push((x >> 8) as u8);
    v.push(x as u8);
    proof {
        assert(v@ =~= be_bytes_of_u32(x));
    }
    v
}

/// Writing a `u32` and reading it back returns the same value.
pub proof fn lemma_u32_round_trip(x: u32)
    ensures
        be_u32(be_bytes_of_u32(x)) == x,
{
    assert(((x >> 24) as u8 as u32) << 24 | ((x >> 16) as u8 as u32) << 16 | ((x >> 8) as u8
        as u32) << 8 | (x as u8 as u32) == x) by (bit_vector);
}

/// Reading four bytes and writing them back returns the same bytes.
pub proof fn lemma_u32_bytes_round_trip(s: Seq<u8>)
    requires
        s.len() == 4,
    ensures
        be_bytes_of_u32(be_u32(s)) == s,
{
    let b0 = s[0];
    let b1 = s[1];
    let b2 = s[2];
    let b3 = s[3];
    assert((((b0 as u32) << 24 | (b1 as u32) << 16 | (b2 as u32) << 8 | (b3 as u32)) >> 24) as u8
        == b0) by (bit_vector);
    assert((((b0 as u32) << 24 | (b1 as u32) << 16 | (b2 as u32) << 8 | (b3 as u32)) >> 16) as u8
        == b1) by (bit_vector);
    assert((((b0 as u32) << 24 | (b1 as u32) << 16 | (b2 as u32) << 8 | (b3 as u32)) >> 8) as u8
        == b2) by (bit_vector);
    assert(((b0 as u32) << 24 | (b1 as u32) << 16 | (b2 as u32) << 8 | (b3 as u32)) as u8 == b3)
        by (bit_vector);
    assert(be_bytes_of_u32(be_u32(s)) =~= s);
}


/// The `u64` denoted by eight big-endian bytes.
pub open spec fn be_u64(s: Seq<u8>) -> u64
    recommends
        s.len() == 8,
{
    (s[0] as u64) << 56 | (s[1] as u64) << 48 | (s[2] as u64) << 40 | (s[3] as u64) << 32 | (
    s[4] as u64) << 24 | (s[5] as u64) << 16 | (s[6] as u64) << 8 | (s[7] as u64)
}

/// The eight big-endian bytes of a `u64`.
pub open spec fn be_bytes_of_u64(x: u64) -> Seq<u8> {
    seq![
        (x >> 56) as u8,
        (x >> 48) as u8,
        (x >> 40) as u8,
        (x >> 32) as u8,
        (x >> 24) as u8,
        (x >> 16) as u8,
        (x >> 8) as u8,
        x as u8,
    ]
}

/// Reads a `u64` out of its eight-byte big-endian encoding.
pub fn bytes_to_u64(bytes: &[u8]) -> (r: u64)
    requires
        bytes@.len() == 8,
    ensures
        r == be_u64(bytes@),
{
    let b0 = bytes[0] as u64;
    let b1 = bytes[1] as u64;
    let b2 = bytes[2] as u64;
    let b3 = bytes[3] as u64;
    let b4 = bytes[4] as u64;
    let b5 = bytes[5] as u64;
    let b6 = bytes[6] as u64;
    let b7 = bytes[7] as u64;
    b0 << 56 | b1 << 48 | b2 << 40 | b3 << 32 | b4 << 24 | b5 << 16 | b6 << 8 | b7
}

/// Writes a `u64` as eight big-endian bytes.
pub fn u64_to_bytes(x: u64) -> (r: Vec<u8>)
    ensures
        r@ == be_bytes_of_u64(x),
        r@.len() == 8,
{
    let mut v: Vec<u8> = Vec::new();
    v.push((x >> 56) as u8);
    v.push((x >> 48) as u8);
    v.push((x >> 40) as u8);
    v.push((x >> 32) as u8);
    v.push((x >> 24) as u8);
    v.push((x >> 16) as u8);
    v.push((x >> 8) as u8);
    v.push(x as u8);
    proof {
        assert(v@ =~= be_bytes_of_u64(x));
    }
    v
}

/// Writing a `u64` and reading it back returns the same value.
pub proof fn lemma_u64_round_trip(x: u64)
    ensures
        be_u64(be_bytes_of_u64(x)) == x,
{
    assert(((x >> 56) as u8 as u64) << 56 | ((x >> 48) as u8 as u64) << 48 | ((x >> 40) as u8
        as u64) << 40 | ((x >> 32) as u8 as u64) << 32 | ((x >> 24) as u8 as u64) << 24 | ((x
        >> 16) as u8 as u64) << 16 | ((x >> 8) as u8 as u64) << 8 | (x as u8 as u64) == x)
        by (bit_vector);
}

/// An `i32` is stored as its two's-complement `u32`, big-endian.
pub open spec fn be_bytes_of_i32(x: i32) -> Seq<u8> {
    be_bytes_of_u32(x as u32)
}

/// Writes an `i32` as four big-endian bytes.
pub fn i32_to_bytes(x: i32) -> (r: Vec<u8>)
    ensures
        r@ == be_bytes_of_i32(x),
        r@.len() == 4,
{
    u32_to_bytes(x as u32)
}

/// Reads an `i32` out of its four-byte big-endian encoding.
pub fn bytes_to_i32(bytes: &[u8]) -> (r: i32)
    requires
        bytes@.len() == 4,
    ensures
        r == be_u32(bytes@) as i32,
{
    bytes_to_u32(bytes) as i32
}

/// Writing an `i32` and reading it back returns the same value.
pub proof fn lemma_i32_round_trip(x: i32)
    ensures
        be_u32(be_bytes_of_i32(x)) as i32 == x,
{
    lemma_u32_round_trip(x as u32);
    assert(x as u32 as i32 == x) by (bit_vector);
}

/// A boolean is stored as one signed byte holding 0 or 1.
pub open spec fn byte_of_bool(b: bool) -> u8 {
    if b {
        1
    } else {
        0
    }
}

/// The boolean a stored byte denotes: any non-zero byte reads as true.
pub open spec fn bool_of_byte(x: u8) -> bool {
    x != 0
}

/// Writes a boolean as its single-byte encoding.
pub fn bool_to_bytes(b: bool) -> (r: Vec<u8>)
    ensures
        r@ =~= seq![byte_of_bool(b)],
{
    let mut v: Vec<u8> = Vec::new();
    if b {
        v.push(1);
    } else {
        v.push(0);
    }
    v
}

/// Reads a boolean back from its single-byte encoding.
pub fn bytes_to_bool(bytes: &[u8]) -> (r: bool)
    requires
        bytes@.len() == 1,
    ensures
        r == bool_of_byte(bytes@[0]),
        bytes@[0] == byte_of_bool(r) || (r && bytes@[0] != 0),
{
    bytes[0] != 0
}

} // verus!

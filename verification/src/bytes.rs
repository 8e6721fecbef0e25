//! Big-endian byte encodings of the fixed-width integers the wire protocol
//! carries, with round-trip proofs, and small helpers for reading byte ranges.

use vstd::prelude::*;

verus! {

/// The four bytes of `x`, most significant first.
pub open spec fn spec_u32_to_be_bytes(x: u32) -> Seq<u8> {
    seq![
        ((x >> 24) & 0xff) as u8,
        ((x >> 16) & 0xff) as u8,
        ((x >> 8) & 0xff) as u8,
        (x & 0xff) as u8,
    ]
}

/// The value whose big-endian bytes are `s`.
pub open spec fn spec_u32_from_be_bytes(s: Seq<u8>) -> u32
    recommends
        s.len() == 4,
{
    ((s[0] as u32) << 24) | ((s[1] as u32) << 16) | ((s[2] as u32) << 8) | (s[3] as u32)
}

pub proof fn lemma_u32_be_round_trip(x: u32)
    ensures
        spec_u32_to_be_bytes(x).len() == 4,
        spec_u32_from_be_bytes(spec_u32_to_be_bytes(x)) == x,
{
    assert(((((x >> 24) & 0xff) as u8 as u32) << 24) | ((((x >> 16) & 0xff) as u8 as u32) << 16)
        | ((((x >> 8) & 0xff) as u8 as u32) << 8) | (((x & 0xff) as u8 as u32)) == x)
        by (bit_vector);
}

pub proof fn lemma_u32_be_canonical(s: Seq<u8>)
    requires
        s.len() == 4,
    ensures
        spec_u32_to_be_bytes(spec_u32_from_be_bytes(s)) == s,
{
    let x = spec_u32_from_be_bytes(s);
    let a = s[0];
    let b = s[1];
    let c = s[2];
    let d = s[3];
    assert((((x >> 24) & 0xff) as u8) == a && (((x >> 16) & 0xff) as u8) == b && (((x >> 8)
        & 0xff) as u8) == c && ((x & 0xff) as u8) == d) by (bit_vector)
        requires
            x == ((a as u32) << 24) | ((b as u32) << 16) | ((c as u32) << 8) | (d as u32),
    ;
    assert(spec_u32_to_be_bytes(x) =~= s);
}

pub fn u32_to_be_bytes(x: u32) -> (r: Vec<u8>)
    ensures
        r@ == spec_u32_to_be_bytes(x),
{
    assert((x >> 24) & 0xff < 256 && (x >> 16) & 0xff < 256 && (x >> 8) & 0xff < 256 && x & 0xff
        < 256) by (bit_vector);
    let mut r: Vec<u8> = Vec::new();
    r.push(((x >> 24) & 0xff) as u8);
    r.push(((x >> 16) & 0xff) as u8);
    r.push(((x >> 8) & 0xff) as u8);
    r.push((x & 0xff) as u8);
    assert(r@ =~= spec_u32_to_be_bytes(x));
    r
}

/// Reads the big-endian `u32` that starts at position `i` of `buf`.
pub fn read_u32_be(buf: &Vec<u8>, i: usize) -> (x: u32)
    requires
        i + 4 <= buf@.len(),
    ensures
        x == spec_u32_from_be_bytes(buf@.subrange(i as int, i as int + 4)),
{
    let n = buf.len();
    assert(i + 4 <= n);
    let x = ((buf[i] as u32) << 24) | ((buf[i + 1] as u32) << 16) | ((buf[i + 2] as u32) << 8) | (
    buf[i + 3] as u32);
    proof {
        let s = buf@.subrange(i as int, i as int + 4);
        assert(s[0] == buf@[i as int] && s[1] == buf@[i as int + 1] && s[2] == buf@[i as int + 2]
            && s[3] == buf@[i as int + 3]);
    }
    x
}

/// The eight bytes of `x`, most significant first.
pub open spec fn spec_u64_to_be_bytes(x: u64) -> Seq<u8> {
    seq![
        ((x >> 56) & 0xff) as u8,
        ((x >> 48) & 0xff) as u8,
        ((x >> 40) & 0xff) as u8,
        ((x >> 32) & 0xff) as u8,
        ((x >> 24) & 0xff) as u8,
        ((x >> 16) & 0xff) as u8,
        ((x >> 8) & 0xff) as u8,
        (x & 0xff) as u8,
    ]
}

/// The value whose big-endian bytes are `s`.
pub open spec fn spec_u64_from_be_bytes(s: Seq<u8>) -> u64
    recommends
        s.len() == 8,
{
    ((s[0] as u64) << 56) | ((s[1] as u64) << 48) | ((s[2] as u64) << 40) | ((s[3] as u64) << 32)
        | ((s[4] as u64) << 24) | ((s[5] as u64) << 16) | ((s[6] as u64) << 8) | (s[7] as u64)
}

pub proof fn lemma_u64_be_round_trip(x: u64)
    ensures
        spec_u64_to_be_bytes(x).len() == 8,
        spec_u64_from_be_bytes(spec_u64_to_be_bytes(x)) == x,
{
    assert(((((x >> 56) & 0xff) as u8 as u64) << 56) | ((((x >> 48) & 0xff) as u8 as u64) << 48)
        | ((((x >> 40) & 0xff) as u8 as u64) << 40) | ((((x >> 32) & 0xff) as u8 as u64) << 32)
        | ((((x >> 24) & 0xff) as u8 as u64) << 24) | ((((x >> 16) & 0xff) as u8 as u64) << 16)
        | ((((x >> 8) & 0xff) as u8 as u64) << 8) | (((x & 0xff) as u8 as u64)) == x)
        by (bit_vector);
}

pub proof fn lemma_u64_be_canonical(s: Seq<u8>)
    requires
        s.len() == 8,
    ensures
        spec_u64_to_be_bytes(spec_u64_from_be_bytes(s)) == s,
{
    let x = spec_u64_from_be_bytes(s);
    let b0 = s[0];
    let b1 = s[1];
    let b2 = s[2];
    let b3 = s[3];
    let b4 = s[4];
    let b5 = s[5];
    let b6 = s[6];
    let b7 = s[7];
    assert((((x >> 56) & 0xff) as u8) == b0 && (((x >> 48) & 0xff) as u8) == b1 && (((x >> 40)
        & 0xff) as u8) == b2 && (((x >> 32) & 0xff) as u8) == b3 && (((x >> 24) & 0xff) as u8)
        == b4 && (((x >> 16) & 0xff) as u8) == b5 && (((x >> 8) & 0xff) as u8) == b6 && ((x
        & 0xff) as u8) == b7) by (bit_vector)
        requires
            x == ((b0 as u64) << 56) | ((b1 as u64) << 48) | ((b2 as u64) << 40) | ((b3
                as u64) << 32) | ((b4 as u64) << 24) | ((b5 as u64) << 16) | ((b6 as u64) << 8) | (
            b7 as u64),
    ;
    assert(spec_u64_to_be_bytes(x) =~= s);
}

pub fn u64_to_be_bytes(x: u64) -> (r: Vec<u8>)
    ensures
        r@ == spec_u64_to_be_bytes(x),
{
    assert((x >> 56) & 0xff < 256 && (x >> 48) & 0xff < 256 && (x >> 40) & 0xff < 256 && (x >> 32)
        & 0xff < 256 && (x >> 24) & 0xff < 256 && (x >> 16) & 0xff < 256 && (x >> 8) & 0xff < 256
        && x & 0xff < 256) by (bit_vector);
    let mut r: Vec<u8> = Vec::new();
    r.push(((x >> 56) & 0xff) as u8);
    r.push(((x >> 48) & 0xff) as u8);
    r.push(((x >> 40) & 0xff) as u8);
    r.push(((x >> 32) & 0xff) as u8);
    r.push(((x >> 24) & 0xff) as u8);
    r.push(((x >> 16) & 0xff) as u8);
    r.push(((x >> 8) & 0xff) as u8);
    r.push((x & 0xff) as u8);
    assert(r@ =~= spec_u64_to_be_bytes(x));
    r
}

/// Reads the big-endian `u64` that starts at position `i` of `buf`.
pub fn read_u64_be(buf: &Vec<u8>, i: usize) -> (x: u64)
    requires
        i + 8 <= buf@.len(),
    ensures
        x == spec_u64_from_be_bytes(buf@.subrange(i as int, i as int + 8)),
{
    let n = buf.len();
    assert(i + 8 <= n);
    let x = ((buf[i] as u64) << 56) | ((buf[i + 1] as u64) << 48) | ((buf[i + 2] as u64) << 40) | ((
    buf[i + 3] as u64) << 32) | ((buf[i + 4] as u64) << 24) | ((buf[i + 5] as u64) << 16) | ((buf[i
        + 6] as u64) << 8) | (buf[i + 7] as u64);
    proof {
        let s = buf@.subrange(i as int, i as int + 8);
        assert(forall|k: int| 0 <= k < 8 ==> s[k] == buf@[i as int + k]);
    }
    x
}

/// The sixteen bytes of `x`, most significant first.
pub open spec fn spec_u128_to_be_bytes(x: u128) -> Seq<u8> {
    spec_u64_to_be_bytes(((x >> 64) & 0xffff_ffff_ffff_ffff) as u64) + spec_u64_to_be_bytes(
        (x & 0xffff_ffff_ffff_ffff) as u64,
    )
}

/// The value whose big-endian bytes are `s`.
pub open spec fn spec_u128_from_be_bytes(s: Seq<u8>) -> u128
    recommends
        s.len() == 16,
{
    ((spec_u64_from_be_bytes(s.subrange(0, 8)) as u128) << 64) | (spec_u64_from_be_bytes(
        s.subrange(8, 16),
    ) as u128)
}

pub proof fn lemma_u128_be_round_trip(x: u128)
    ensures
        spec_u128_to_be_bytes(x).len() == 16,
        spec_u128_from_be_bytes(spec_u128_to_be_bytes(x)) == x,
{
    let hi = ((x >> 64) & 0xffff_ffff_ffff_ffff) as u64;
    let lo = (x & 0xffff_ffff_ffff_ffff) as u64;
    lemma_u64_be_round_trip(hi);
    lemma_u64_be_round_trip(lo);
    let s = spec_u128_to_be_bytes(x);
    assert(s.subrange(0, 8) =~= spec_u64_to_be_bytes(hi));
    assert(s.subrange(8, 16) =~= spec_u64_to_be_bytes(lo));
    assert(((hi as u128) << 64) | (lo as u128) == x) by (bit_vector)
        requires
            hi == ((x >> 64) & 0xffff_ffff_ffff_ffff) as u64,
            lo == (x & 0xffff_ffff_ffff_ffff) as u64,
    ;
}

pub proof fn lemma_u128_be_canonical(s: Seq<u8>)
    requires
        s.len() == 16,
    ensures
        spec_u128_to_be_bytes(spec_u128_from_be_bytes(s)) == s,
{
    let x = spec_u128_from_be_bytes(s);
    let hi = spec_u64_from_be_bytes(s.subrange(0, 8));
    let lo = spec_u64_from_be_bytes(s.subrange(8, 16));
    assert(((x >> 64) & 0xffff_ffff_ffff_ffff) as u64 == hi && (x & 0xffff_ffff_ffff_ffff) as u64
        == lo) by (bit_vector)
        requires
            x == ((hi as u128) << 64) | (lo as u128),
    ;
    lemma_u64_be_canonical(s.subrange(0, 8));
    lemma_u64_be_canonical(s.subrange(8, 16));
    assert(spec_u128_to_be_bytes(x) =~= s);
}

pub fn u128_to_be_bytes(x: u128) -> (r: Vec<u8>)
    ensures
        r@ == spec_u128_to_be_bytes(x),
{
    assert((x >> 64) & 0xffff_ffff_ffff_ffff <= u64::MAX && x & 0xffff_ffff_ffff_ffff <= u64::MAX)
        by (bit_vector);
    let mut r = u64_to_be_bytes(((x >> 64) & 0xffff_ffff_ffff_ffff) as u64);
    let mut lo = u64_to_be_bytes((x & 0xffff_ffff_ffff_ffff) as u64);
    r.append(&mut lo);
    assert(r@ =~= spec_u128_to_be_bytes(x));
    r
}

/// Reads the big-endian `u128` that starts at position `i` of `buf`.
pub fn read_u128_be(buf: &Vec<u8>, i: usize) -> (x: u128)
    requires
        i + 16 <= buf@.len(),
    ensures
        x == spec_u128_from_be_bytes(buf@.subrange(i as int, i as int + 16)),
{
    let n = buf.len();
    assert(i + 16 <= n);
    let hi = read_u64_be(buf, i);
    let lo = read_u64_be(buf, i + 8);
    proof {
        let s = buf@.subrange(i as int, i as int + 16);
        assert(s.subrange(0, 8) =~= buf@.subrange(i as int, i as int + 8));
        assert(s.subrange(8, 16) =~= buf@.subrange(i as int + 8, i as int + 16));
    }
    ((hi as u128) << 64) | (lo as u128)
}

/// Copies the `n` bytes of `buf` that start at position `i`.
pub fn take_bytes(buf: &Vec<u8>, i: usize, n: usize) -> (r: Vec<u8>)
    requires
        i + n <= buf@.len(),
    ensures
        r@ == buf@.subrange(i as int, i as int + n as int),
{
    let len = buf.len();
    assert(i + n <= len);
    let mut r: Vec<u8> = Vec::new();
    let mut j: usize = 0;
    while j < n
        invariant
            j <= n,
            i + n <= buf@.len(),
            buf@.len() <= usize::MAX,
            r@ == buf@.subrange(i as int, i as int + j as int),
        decreases n - j,
    {
        r.push(buf[i + j]);
        assert(r@ =~= buf@.subrange(i as int, i as int + (j + 1) as int));
        j = j + 1;
    }
    r
}

} // verus!

//! Little-endian integers and byte runs, the pieces that every wire format in
//! this crate is made of.

use vstd::prelude::*;

verus! {

/// The four little-endian bytes of `x`.
#[verifier::opaque]
pub open spec fn le_u32(x: u32) -> Seq<u8> {
    seq![
        (x % 256) as u8,
        (x / 256 % 256) as u8,
        (x / 65536 % 256) as u8,
        (x / 16777216 % 256) as u8,
    ]
}

/// The eight little-endian bytes of `x`.
pub open spec fn le_u64(x: u64) -> Seq<u8> {
    le_u32((x % 0x1_0000_0000) as u32) + le_u32((x / 0x1_0000_0000) as u32)
}

/// The number whose little-endian bytes stand at `s[i..i + 4]`.
#[verifier::opaque]
pub open spec fn u32_at(s: Seq<u8>, i: int) -> u32 {
    (s[i] + 256 * s[i + 1] + 65536 * s[i + 2] + 16777216 * s[i + 3]) as u32
}

/// The number whose little-endian bytes stand at `s[i..i + 8]`.
pub open spec fn u64_at(s: Seq<u8>, i: int) -> u64 {
    (u32_at(s, i) + 0x1_0000_0000 * u32_at(s, i + 4)) as u64
}

/// A number has four little-endian bytes.
pub broadcast proof fn lemma_le_u32_len(x: u32)
    ensures
        #[trigger] le_u32(x).len() == 4,
{
    reveal(le_u32);
}

/// Reading the little-endian bytes of a number gives the number back.
pub proof fn lemma_u32_le_round_trip(x: u32)
    ensures
        le_u32(x).len() == 4,
        u32_at(le_u32(x), 0) == x,
{
    reveal(le_u32);
    reveal(u32_at);
}

/// Four bytes are the little-endian bytes of the number that they denote.
pub proof fn lemma_u32_at_bytes(s: Seq<u8>, i: int)
    requires
        0 <= i,
        i + 4 <= s.len(),
    ensures
        le_u32(u32_at(s, i)) == s.subrange(i, i + 4),
{
    reveal(le_u32);
    reveal(u32_at);
    let (a, b, c, d) = (s[i], s[i + 1], s[i + 2], s[i + 3]);
    let x = u32_at(s, i);
    assert(x % 256 == a && x / 256 % 256 == b && x / 65536 % 256 == c && x / 16777216 % 256 == d)
        by (bit_vector)
        requires
            x == (a + 256 * b + 65536 * c + 16777216 * d) as u32,
    ;
    assert(le_u32(x) =~= seq![a, b, c, d]);
    assert(s.subrange(i, i + 4) =~= seq![a, b, c, d]);
}

/// Reading the little-endian bytes of a number gives the number back.
pub proof fn lemma_u64_le_round_trip(x: u64)
    ensures
        le_u64(x).len() == 8,
        u64_at(le_u64(x), 0) == x,
{
    let lo = (x % 0x1_0000_0000) as u32;
    let hi = (x / 0x1_0000_0000) as u32;
    lemma_u32_le_round_trip(lo);
    lemma_u32_le_round_trip(hi);
    reveal(u32_at);
    let s = le_u64(x);
    assert(u32_at(s, 0) == u32_at(le_u32(lo), 0));
    assert(u32_at(s, 4) == u32_at(le_u32(hi), 0));
}

/// A number that starts a sequence is read the same whatever follows it.
pub proof fn lemma_u32_at_prefix(x: u32, rest: Seq<u8>)
    ensures
        u32_at(le_u32(x) + rest, 0) == x,
        (le_u32(x) + rest).skip(4) == rest,
{
    lemma_u32_le_round_trip(x);
    reveal(u32_at);
    let s = le_u32(x) + rest;
    assert(s[0] == le_u32(x)[0] && s[1] == le_u32(x)[1] && s[2] == le_u32(x)[2] && s[3] == le_u32(
        x,
    )[3]);
    assert(s.skip(4) =~= rest);
}

/// A number is read the same from the front of what is left.
pub proof fn lemma_u32_at_shift(s: Seq<u8>, i: int)
    requires
        0 <= i,
        i + 4 <= s.len(),
    ensures
        u32_at(s.skip(i), 0) == u32_at(s, i),
{
    reveal(u32_at);
}

/// Appends `bytes` to `out`.
pub fn append_bytes(out: &mut Vec<u8>, bytes: &[u8])
    ensures
        final(out)@ == old(out)@ + bytes@,
{
    out.extend_from_slice(bytes);
    assert(out@ =~= old(out)@ + bytes@);
}

/// Appends the little-endian bytes of `x`.
pub fn append_u32_le(out: &mut Vec<u8>, x: u32)
    ensures
        final(out)@ == old(out)@ + le_u32(x),
{
    reveal(le_u32);
    out.push((x % 256) as u8);
    out.push((x / 256 % 256) as u8);
    out.push((x / 65536 % 256) as u8);
    out.push((x / 16777216 % 256) as u8);
    assert(out@ =~= old(out)@ + le_u32(x));
}

/// Appends the little-endian bytes of `x`.
pub fn append_u64_le(out: &mut Vec<u8>, x: u64)
    ensures
        final(out)@ == old(out)@ + le_u64(x),
{
    append_u32_le(out, (x % 0x1_0000_0000) as u32);
    append_u32_le(out, (x / 0x1_0000_0000) as u32);
    assert(out@ =~= old(out)@ + le_u64(x));
}

/// Reads the number whose little-endian bytes stand at `at`.
pub fn read_u32_le(input: &[u8], at: usize) -> (x: u32)
    requires
        at + 4 <= input@.len(),
    ensures
        x == u32_at(input@, at as int),
{
    reveal(u32_at);
    input[at] as u32 + 256 * (input[at + 1] as u32) + 65536 * (input[at + 2] as u32) + 16777216 * (
    input[at + 3] as u32)
}

/// Reads the number whose little-endian bytes stand at `at`.
pub fn read_u64_le(input: &[u8], at: usize) -> (x: u64)
    requires
        at + 8 <= input@.len(),
    ensures
        x == u64_at(input@, at as int),
{
    let _len: usize = input.len();
    let lo: u32 = read_u32_le(input, at);
    let hi: u32 = read_u32_le(input, at + 4);
    lo as u64 + 0x1_0000_0000 * (hi as u64)
}

/// The low 32 bits of a length.
pub open spec fn len32(n: nat) -> u32 {
    (n % 0x1_0000_0000) as u32
}

/// Keeps the low 32 bits of a length.
pub fn low_u32(n: usize) -> (x: u32)
    ensures
        x == len32(n as nat),
{
    ((n as u64) % 0x1_0000_0000) as u32
}

/// Copies a byte run.
pub fn copy_bytes(bytes: &[u8]) -> (out: Vec<u8>)
    ensures
        out@ == bytes@,
{
    let mut out: Vec<u8> = Vec::new();
    append_bytes(&mut out, bytes);
    assert(out@ =~= bytes@);
    out
}

/// Whether `bytes` starts with `prefix`.
pub fn starts_with(bytes: &[u8], prefix: &[u8]) -> (b: bool)
    ensures
        b == prefix@.is_prefix_of(bytes@),
{
    if bytes.len() < prefix.len() {
        return false;
    }
    let mut i: usize = 0;
    while i < prefix.len()
        invariant
            i <= prefix.len() <= bytes.len(),
            forall|j: int| 0 <= j < i ==> prefix@[j] == bytes@[j],
        decreases prefix.len() - i,
    {
        if bytes[i] != prefix[i] {
            assert(prefix@[i as int] != bytes@.subrange(0, prefix@.len() as int)[i as int]);
            return false;
        }
        i = i + 1;
    }
    assert(prefix@ =~= bytes@.subrange(0, prefix@.len() as int));
    true
}

/// Whether `value` occurs in `bytes`.
pub fn contains_byte(bytes: &[u8], value: u8) -> (b: bool)
    ensures
        b == bytes@.contains(value),
{
    let mut i: usize = 0;
    while i < bytes.len()
        invariant
            i <= bytes.len(),
            forall|j: int| 0 <= j < i ==> bytes@[j] != value,
        decreases bytes.len() - i,
    {
        if bytes[i] == value {
            assert(bytes@[i as int] == value);
            return true;
        }
        i = i + 1;
    }
    false
}

/// Whether two byte runs are equal.
pub fn bytes_equal(a: &[u8], b: &[u8]) -> (r: bool)
    ensures
        r == (a@ == b@),
{
    if a.len() != b.len() {
        return false;
    }
    let mut i: usize = 0;
    while i < a.len()
        invariant
            i <= a.len(),
            a.len() == b.len(),
            forall|j: int| 0 <= j < i ==> a@[j] == b@[j],
        decreases a.len() - i,
    {
        if a[i] != b[i] {
            assert(a@[i as int] != b@[i as int]);
            return false;
        }
        i = i + 1;
    }
    assert(a@ =~= b@);
    true
}

/// The bytes of a number, the lowest first: the number is the sum of its bytes, each
/// at its weight.
pub proof fn law_bytes_have_weights(x: u32)
    ensures
        le_u32(x).len() == 4,
        le_u32(x)[0] + 256 * le_u32(x)[1] + 65536 * le_u32(x)[2] + 16777216 * le_u32(x)[3] == x,
{
    reveal(le_u32);
}

/// What is read at a place is the sum of the bytes there, each at its weight; of eight
/// bytes, the first four are the low half.
pub proof fn law_numbers_are_read_from_their_bytes(s: Seq<u8>, i: int)
    requires
        0 <= i,
        i + 8 <= s.len(),
    ensures
        u32_at(s, i) == s[i] + 256 * s[i + 1] + 65536 * s[i + 2] + 16777216 * s[i + 3],
        u64_at(s, i) == u32_at(s, i) + 4294967296 * u32_at(s, i + 4),
{
    reveal(u32_at);
}

/// A length below 4 GiB is kept.
pub proof fn law_lengths_are_kept(n: nat)
    ensures
        n < 4294967296 ==> len32(n) == n,
        (n - len32(n)) % 4294967296 == 0,
{
}

} // verus!

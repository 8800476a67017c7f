//! Big-endian integer encodings and byte-string helpers.
use vstd::prelude::*;
use vstd::arithmetic::div_mod::*;

verus! {

/// `256` raised to the power `n`.
pub open spec fn byte_pow(n: nat) -> nat
    decreases n,
{
    if n == 0 {
        1
    } else {
        256 * byte_pow((n - 1) as nat)
    }
}

/// The `n` low-order bytes of `x`, most significant first (what
/// `to_be_bytes` yields for an `n`-byte unsigned integer).
pub open spec fn be_bytes(x: nat, n: nat) -> Seq<u8>
    decreases n,
{
    if n == 0 {
        Seq::empty()
    } else {
        be_bytes(x / 256, (n - 1) as nat).push((x % 256) as u8)
    }
}

/// The unsigned integer whose big-endian encoding is `s`.
pub open spec fn be_value(s: Seq<u8>) -> nat
    decreases s.len(),
{
    if s.len() == 0 {
        0
    } else {
        be_value(s.drop_last()) * 256 + s.last() as nat
    }
}

/// A big-endian encoding never reaches `256^len`.
pub proof fn lemma_be_value_bound(s: Seq<u8>)
    ensures
        be_value(s) < byte_pow(s.len()),
    decreases s.len(),
{
    if s.len() > 0 {
        lemma_be_value_bound(s.drop_last());
    }
}

/// Powers of 256 are positive.
pub proof fn lemma_byte_pow_pos(n: nat)
    ensures
        byte_pow(n) > 0,
    decreases n,
{
    if n > 0 {
        lemma_byte_pow_pos((n - 1) as nat);
    }
}

/// Decoding an encoding gives back the encoded number, reduced to `n` bytes.
pub proof fn lemma_be_roundtrip(x: nat, n: nat)
    ensures
        be_bytes(x, n).len() == n,
        be_value(be_bytes(x, n)) == x % byte_pow(n),
    decreases n,
{
    if n == 0 {
    } else {
        lemma_be_roundtrip(x / 256, (n - 1) as nat);
        let m = byte_pow((n - 1) as nat);
        lemma_byte_pow_pos((n - 1) as nat);
        assert(be_bytes(x, n).drop_last() == be_bytes(x / 256, (n - 1) as nat));
        lemma_breakdown(x as int, 256, m as int);
        assert(256 * m == m * 256) by (nonlinear_arith);
    }
}

/// `2^64` is `256^8`, `2^32` is `256^4` and `2^128` is `256^16`.
pub proof fn lemma_byte_pow_values()
    ensures
        byte_pow(4) == 0x1_0000_0000,
        byte_pow(8) == 0x1_0000_0000_0000_0000,
        byte_pow(16) == 0x1_0000_0000_0000_0000_0000_0000_0000_0000,
{
    reveal_with_fuel(byte_pow, 17);
}

fn be_bytes_u128(x: u128, n: usize) -> (v: Vec<u8>)
    requires
        n <= 16,
    ensures
        v@ == be_bytes(x as nat, n as nat),
    decreases n,
{
    if n == 0 {
        Vec::new()
    } else {
        let mut v = be_bytes_u128(x / 256, n - 1);
        v.push((x % 256) as u8);
        v
    }
}

/// The big-endian bytes of a `u32`.
pub fn u32_to_be_bytes(x: u32) -> (v: Vec<u8>)
    ensures
        v@ == be_bytes(x as nat, 4),
{
    be_bytes_u128(x as u128, 4)
}

/// The big-endian two's-complement bytes of an `i128`.
pub fn i128_to_be_bytes(x: i128) -> (v: Vec<u8>)
    ensures
        v@ == be_bytes((x as u128) as nat, 16),
{
    be_bytes_u128(x as u128, 16)
}

/// The `u64` encoded big-endian in `s[start..start + 8]`.
pub fn be_u64_at(s: &[u8], start: usize) -> (r: u64)
    requires
        start + 8 <= s@.len(),
    ensures
        r == be_value(s@.subrange(start as int, start + 8)),
{
    let len = s.len();
    let end = start + 8;
    let mut acc: u64 = 0;
    let mut i: usize = start;
    proof {
        lemma_byte_pow_values();
        assert(s@.subrange(start as int, start as int) =~= Seq::<u8>::empty());
    }
    while i < end
        invariant
            end == start + 8,
            start <= i <= start + 8,
            start + 8 <= s@.len(),
            acc == be_value(s@.subrange(start as int, i as int)),
            byte_pow(8) == 0x1_0000_0000_0000_0000,
        decreases end - i,
    {
        proof {
            lemma_be_value_bound(s@.subrange(start as int, i as int));
            let k = (i - start) as nat;
            assert(byte_pow(k) * 256 <= byte_pow(8)) by {
                reveal_with_fuel(byte_pow, 9);
            }
            assert(acc * 256 + 255 < 0x1_0000_0000_0000_0000) by (nonlinear_arith)
                requires
                    acc < byte_pow(k),
                    byte_pow(k) * 256 <= 0x1_0000_0000_0000_0000,
            ;
            assert(s@.subrange(start as int, i + 1).drop_last() =~= s@.subrange(
                start as int,
                i as int,
            ));
        }
        acc = acc * 256 + s[i] as u64;
        i = i + 1;
    }
    acc
}

/// Append the bytes of `src` to `dst`.
pub fn append_bytes(dst: &mut Vec<u8>, src: &[u8])
    ensures
        final(dst)@ == old(dst)@ + src@,
{
    let ghost start = dst@;
    let mut i: usize = 0;
    while i < src.len()
        invariant
            i <= src@.len(),
            dst@ == start + src@.subrange(0, i as int),
        decreases src@.len() - i,
    {
        dst.push(src[i]);
        i = i + 1;
        assert(dst@ =~= start + src@.subrange(0, i as int));
    }
    assert(src@.subrange(0, src@.len() as int) =~= src@);
}

/// Whether two byte strings are equal.
pub fn bytes_eq(a: &[u8], b: &[u8]) -> (r: bool)
    ensures
        r == (a@ == b@),
{
    if a.len() != b.len() {
        return false;
    }
    let mut i: usize = 0;
    while i < a.len()
        invariant
            i <= a@.len(),
            a@.len() == b@.len(),
            forall|j: int| 0 <= j < i ==> a@[j] == b@[j],
        decreases a@.len() - i,
    {
        if a[i] != b[i] {
            return false;
        }
        i = i + 1;
    }
    assert(a@ =~= b@);
    true
}

} // verus!

//! Byte-level primitives: big-endian integers and fixed-width reads.
//! Every on-chain value that the decoders consume is built from these.

use vstd::prelude::*;

verus! {

/// Value of a byte string read as one big-endian integer.
pub open spec fn be_val(s: Seq<u8>) -> nat
    decreases s.len(),
{
    if s.len() == 0 {
        0
    } else {
        be_val(s.drop_last()) * 256 + s.last() as nat
    }
}

/// 256 raised to the power `n`: the number of distinct `n`-byte strings.
pub open spec fn pow256(n: nat) -> nat
    decreases n,
{
    if n == 0 {
        1
    } else {
        256 * pow256((n - 1) as nat)
    }
}

pub proof fn lemma_pow256_pos(n: nat)
    ensures
        pow256(n) >= 1,
    decreases n,
{
    if n > 0 {
        lemma_pow256_pos((n - 1) as nat);
    }
}

pub proof fn lemma_pow256_mono(a: nat, b: nat)
    requires
        a <= b,
    ensures
        pow256(a) <= pow256(b),
    decreases b,
{
    if a < b {
        lemma_pow256_mono(a, (b - 1) as nat);
        lemma_pow256_pos((b - 1) as nat);
    }
}

pub proof fn lemma_pow256_8_value()
    ensures
        pow256(8) == 0x1_0000_0000_0000_0000,
{
    reveal_with_fuel(pow256, 9);
}

/// A byte string's big-endian value is below 256 to its length.
pub proof fn lemma_be_val_bound(s: Seq<u8>)
    ensures
        be_val(s) < pow256(s.len()),
    decreases s.len(),
{
    if s.len() > 0 {
        lemma_be_val_bound(s.drop_last());
    }
}

/// Reads the 8-byte big-endian integer stored at `start`.
pub fn u64_from_be_at(data: &Vec<u8>, start: usize) -> (r: u64)
    requires
        start + 8 <= data@.len(),
    ensures
        r == be_val(data@.subrange(start as int, start as int + 8)),
{
    let ghost field: Seq<u8> = data@.subrange(start as int, start as int + 8);
    let dlen = data.len();
    let mut val: u64 = 0;
    let mut i: usize = 0;
    while i < 8
        invariant
            i <= 8,
            start + 8 <= dlen == data@.len(),
            field == data@.subrange(start as int, start as int + 8),
            val == be_val(field.take(i as int)),
        decreases 8 - i,
    {
        proof {
            lemma_be_val_bound(field.take(i as int));
            lemma_pow256_mono(i as nat, 7);
            lemma_pow256_8_value();
            assert(field.take(i as int + 1).drop_last() =~= field.take(i as int));
            assert(field.take(i as int + 1).last() == data@[start + i]);
        }
        val = val * 256 + data[start + i] as u64;
        i = i + 1;
    }
    proof {
        assert(field.take(8) =~= field);
    }
    val
}

/// Copies the 32 bytes stored at `start` into a fixed array.
pub fn bytes32_at(data: &Vec<u8>, start: usize) -> (out: [u8; 32])
    requires
        start + 32 <= data@.len(),
    ensures
        out@ == data@.subrange(start as int, start as int + 32),
{
    let mut out = [0u8; 32];
    let dlen = data.len();
    let mut i: usize = 0;
    while i < 32
        invariant
            i <= 32,
            start + 32 <= dlen == data@.len(),
            out@.len() == 32,
            forall|j: int| 0 <= j < i ==> out@[j] == data@[start + j],
        decreases 32 - i,
    {
        out[i] = data[start + i];
        i = i + 1;
    }
    assert(out@ =~= data@.subrange(start as int, start as int + 32));
    out
}

/// Big-endian encoding of `v` in exactly `n` bytes, most significant first.
/// Only the low `n` bytes of `v` are represented.
pub open spec fn be_bytes(v: nat, n: nat) -> Seq<u8>
    decreases n,
{
    if n == 0 {
        Seq::empty()
    } else {
        be_bytes(v / 256, (n - 1) as nat) + seq![(v % 256) as u8]
    }
}

pub proof fn lemma_be_bytes_len(v: nat, n: nat)
    ensures
        be_bytes(v, n).len() == n,
    decreases n,
{
    if n > 0 {
        lemma_be_bytes_len(v / 256, (n - 1) as nat);
    }
}

/// Encoding then decoding is the identity on values that fit in `n` bytes.
pub proof fn lemma_be_round_trip(v: nat, n: nat)
    requires
        v < pow256(n),
    ensures
        be_val(be_bytes(v, n)) == v,
    decreases n,
{
    if n == 0 {
    } else {
        assert(v / 256 < pow256((n - 1) as nat)) by {
            lemma_pow256_pos((n - 1) as nat);
        }
        lemma_be_round_trip(v / 256, (n - 1) as nat);
        lemma_be_bytes_len(v / 256, (n - 1) as nat);
        assert(be_bytes(v, n).drop_last() =~= be_bytes(v / 256, (n - 1) as nat));
        assert(be_val(be_bytes(v, n)) == (v / 256) * 256 + v % 256);
        assert((v / 256) * 256 + v % 256 == v) by {
            vstd::arithmetic::div_mod::lemma_fundamental_div_mod(v as int, 256);
        }
    }
}

/// Decoding then encoding is the identity on byte strings: a string is
/// the big-endian encoding of its own value.
pub proof fn lemma_be_bytes_of_val(s: Seq<u8>)
    ensures
        be_bytes(be_val(s), s.len()) == s,
    decreases s.len(),
{
    if s.len() == 0 {
        assert(be_bytes(be_val(s), 0) =~= s);
    } else {
        let a = be_val(s.drop_last());
        let b = s.last();
        assert(be_val(s) == a * 256 + b);
        vstd::arithmetic::div_mod::lemma_fundamental_div_mod_converse(
            be_val(s) as int,
            256,
            a as int,
            b as int,
        );
        lemma_be_bytes_of_val(s.drop_last());
        assert(be_bytes(be_val(s), s.len()) =~= s);
    }
}

/// Appends the `n`-byte big-endian encoding of `v`.
pub fn push_be(out: &mut Vec<u8>, v: u64, n: usize)
    ensures
        final(out)@ == old(out)@ + be_bytes(v as nat, n as nat),
    decreases n,
{
    if n == 0 {
        assert(out@ =~= old(out)@ + be_bytes(v as nat, 0));
    } else {
        push_be(out, v / 256, n - 1);
        out.push((v % 256) as u8);
        assert(out@ =~= old(out)@ + be_bytes(v as nat, n as nat));
    }
}

/// Appends all 32 bytes of the array.
pub fn push_bytes32(out: &mut Vec<u8>, bytes: &[u8; 32])
    ensures
        final(out)@ == old(out)@ + bytes@,
{
    let mut i: usize = 0;
    while i < 32
        invariant
            i <= 32,
            out@ == old(out)@ + bytes@.take(i as int),
        decreases 32 - i,
    {
        out.push(bytes[i]);
        assert(out@ =~= old(out)@ + bytes@.take(i as int + 1));
        i = i + 1;
    }
    assert(out@ =~= old(out)@ + bytes@);
}

} // verus!

//! Primitive decoders over borrowed bytes: fixed-width big-endian integers
//! and small byte-moving helpers shared by the record parsers.
use vstd::prelude::*;

verus! {

/// The value of `data[at .. at + 4]` read as a big-endian integer.
pub open spec fn be_u32_spec(data: Seq<u8>, at: int) -> nat
    recommends
        0 <= at,
        at + 4 <= data.len(),
{
    (data[at] as nat) * 0x1000000 + (data[at + 1] as nat) * 0x10000 + (data[at + 2] as nat) * 0x100
        + (data[at + 3] as nat)
}

/// Reads a 4-byte big-endian integer at offset `at`.
pub fn be_u32(data: &[u8], at: usize) -> (r: u32)
    requires
        at + 4 <= data@.len(),
    ensures
        r == be_u32_spec(data@, at as int),
{
    let n = data.len();
    assert(at + 4 <= n);
    let b0 = *vstd::slice::slice_index_get(data, at);
    let b1 = *vstd::slice::slice_index_get(data, at + 1);
    let b2 = *vstd::slice::slice_index_get(data, at + 2);
    let b3 = *vstd::slice::slice_index_get(data, at + 3);
    (b0 as u32) * 0x1000000 + (b1 as u32) * 0x10000 + (b2 as u32) * 0x100 + (b3 as u32)
}

/// `256 ^ n`, the number of values of an `n`-byte big-endian field.
pub open spec fn pow256(n: nat) -> nat
    decreases n,
{
    if n == 0 {
        1
    } else {
        256 * pow256((n - 1) as nat)
    }
}

/// The value of `data[at .. at + len]` read as a big-endian integer.
pub open spec fn be_bytes_spec(data: Seq<u8>, at: int, len: int) -> nat
    decreases len,
{
    if len <= 0 {
        0
    } else {
        be_bytes_spec(data, at, len - 1) * 256 + (data[at + len - 1] as nat)
    }
}

/// A big-endian field of `len` bytes is below `256 ^ len`.
pub proof fn lemma_be_bytes_bound(data: Seq<u8>, at: int, len: int)
    requires
        0 <= at,
        0 <= len,
        at + len <= data.len(),
    ensures
        be_bytes_spec(data, at, len) < pow256(len as nat),
    decreases len,
{
    if len <= 0 {
    } else {
        lemma_be_bytes_bound(data, at, len - 1);
        assert(be_bytes_spec(data, at, len) < pow256(len as nat)) by (nonlinear_arith)
            requires
                be_bytes_spec(data, at, len) == be_bytes_spec(data, at, len - 1) * 256 + (data[at
                    + len - 1] as nat),
                be_bytes_spec(data, at, len - 1) < pow256((len - 1) as nat),
                (data[at + len - 1] as nat) < 256,
                pow256(len as nat) == 256 * pow256((len - 1) as nat),
        ;
    }
}

/// `pow256` grows with its argument.
pub proof fn lemma_pow256_le(a: nat, b: nat)
    requires
        a <= b,
    ensures
        pow256(a) <= pow256(b),
    decreases b,
{
    if a < b {
        lemma_pow256_le(a, (b - 1) as nat);
        assert(pow256((b - 1) as nat) >= 1) by {
            lemma_pow256_le(0, (b - 1) as nat);
        }
    }
}

/// Reads a big-endian integer of `len` bytes (at most 8) at offset `at`.
pub fn be_bytes_as_u64(data: &[u8], at: usize, len: usize) -> (r: u64)
    requires
        at + len <= data@.len(),
        len <= 8,
    ensures
        r == be_bytes_spec(data@, at as int, len as int),
{
    let n = data.len();
    assert(at + len <= n);
    let mut acc: u64 = 0;
    let mut i: usize = 0;
    while i < len
        invariant
            0 <= i <= len,
            len <= 8,
            at + len <= n,
            n == data@.len(),
            acc == be_bytes_spec(data@, at as int, i as int),
        decreases len - i,
    {
        proof {
            lemma_be_bytes_bound(data@, at as int, i as int);
            lemma_pow256_le((i + 1) as nat, 8);
            assert(acc * 256 + 255 < pow256((i + 1) as nat)) by (nonlinear_arith)
                requires
                    acc < pow256(i as nat),
                    pow256((i + 1) as nat) == 256 * pow256(i as nat),
            ;
            reveal_with_fuel(pow256, 9);
            assert(pow256(8) == 0x10000000000000000);
        }
        let b = *vstd::slice::slice_index_get(data, at + i);
        acc = acc * 256 + (b as u64);
        i = i + 1;
    }
    acc
}

/// ASCII code of the hexadecimal digit for `v` (lower case), `v < 16`.
pub open spec fn hex_digit_spec(v: u8) -> u8
    recommends
        v < 16,
{
    if v < 10 {
        (v + 0x30) as u8
    } else {
        (v + 0x57) as u8
    }
}

/// The ASCII hexadecimal rendering of `s`, two digits per byte.
pub open spec fn hex_of(s: Seq<u8>) -> Seq<u8> {
    Seq::new(
        2 * s.len(),
        |i: int|
            if i % 2 == 0 {
                hex_digit_spec((s[i / 2] / 16) as u8)
            } else {
                hex_digit_spec((s[i / 2] % 16) as u8)
            },
    )
}

/// Renders `data[from .. to]` as lower-case ASCII hexadecimal digits.
pub fn hex_encode(data: &[u8], from: usize, to: usize) -> (r: Vec<u8>)
    requires
        from <= to <= data@.len(),
        to - from <= usize::MAX / 2,
    ensures
        r@ == hex_of(data@.subrange(from as int, to as int)),
{
    let ghost sub = data@.subrange(from as int, to as int);
    let mut out: Vec<u8> = Vec::new();
    let mut i: usize = from;
    while i < to
        invariant
            from <= i <= to <= data@.len(),
            to - from <= usize::MAX / 2,
            out@.len() == 2 * (i - from),
            sub == data@.subrange(from as int, to as int),
            forall|j: int| 0 <= j < out@.len() ==> out@[j] == hex_of(sub)[j],
        decreases to - i,
    {
        let b = *vstd::slice::slice_index_get(data, i);
        out.push(b / 16 + if b / 16 < 10 {
            0x30
        } else {
            0x57
        });
        out.push(b % 16 + if b % 16 < 10 {
            0x30
        } else {
            0x57
        });
        proof {
            assert(sub[(i - from) as int] == data@[i as int]);
        }
        i = i + 1;
    }
    proof {
        assert(out@ =~= hex_of(sub));
    }
    out
}

/// Appends `src[from .. to]` to `dst`.
pub fn append_slice(dst: &mut Vec<u8>, src: &[u8], from: usize, to: usize)
    requires
        from <= to <= src@.len(),
        old(dst)@.len() + (to - from) <= usize::MAX,
    ensures
        final(dst)@ == old(dst)@ + src@.subrange(from as int, to as int),
{
    let ghost orig = dst@;
    let mut i: usize = from;
    while i < to
        invariant
            from <= i <= to <= src@.len(),
            orig.len() + (to - from) <= usize::MAX,
            dst@ == orig + src@.subrange(from as int, i as int),
        decreases to - i,
    {
        let b = *vstd::slice::slice_index_get(src, i);
        dst.push(b);
        proof {
            assert(src@.subrange(from as int, (i + 1) as int) =~= src@.subrange(
                from as int,
                i as int,
            ).push(src@[i as int]));
        }
        i = i + 1;
    }
    proof {
        assert(dst@ =~= orig + src@.subrange(from as int, to as int));
    }
}

} // verus!

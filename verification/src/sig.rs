//! Signature assembly: conversion of the signing primitive's DER output to
//! fixed-width R and S, and the replay-protected recovery byte.
use vstd::prelude::*;
use crate::bytes::append_slice;
use crate::error::ApduError;

verus! {

/// A well-formed DER-encoded ECDSA signature: a sequence tag, two integer
/// fields of 1 to 33 bytes each, and an exact overall length, where a
/// 33-byte integer must start with the sign-disambiguation zero byte.
pub open spec fn der_ok(d: Seq<u8>) -> bool {
    &&& d.len() >= 6
    &&& d[0] == 0x30
    &&& d[1] == d.len() - 2
    &&& d[2] == 0x02
    &&& 1 <= d[3] <= 33
    &&& 4 + d[3] + 2 <= d.len()
    &&& d[4 + d[3]] == 0x02
    &&& 1 <= d[5 + d[3]] <= 33
    &&& 6 + d[3] + d[5 + d[3]] == d.len()
    &&& (d[3] == 33 ==> d[4] == 0)
    &&& (d[5 + d[3]] == 33 ==> d[6 + d[3]] == 0)
}

/// The natural (sign-byte-stripped) big-endian bytes of the R integer.
pub open spec fn der_r_core(d: Seq<u8>) -> Seq<u8> {
    if d[3] == 33 {
        d.subrange(5, 4 + d[3])
    } else {
        d.subrange(4, 4 + d[3])
    }
}

/// The natural (sign-byte-stripped) big-endian bytes of the S integer.
pub open spec fn der_s_core(d: Seq<u8>) -> Seq<u8> {
    let rl = d[3] as int;
    if d[5 + rl] == 33 {
        d.subrange(7 + rl, 6 + rl + d[5 + rl])
    } else {
        d.subrange(6 + rl, 6 + rl + d[5 + rl])
    }
}

/// `s` left-padded with zero bytes to exactly 32 bytes.
pub open spec fn padded32(s: Seq<u8>) -> Seq<u8>
    recommends
        s.len() <= 32,
{
    Seq::new(
        32,
        |i: int|
            if i < 32 - s.len() {
                0u8
            } else {
                s[i - (32 - s.len())]
            },
    )
}

/// Copies `src[from .. to]` into a fresh 32-byte value, left-padded with
/// zeros.
fn pad32(src: &[u8], from: usize, to: usize) -> (r: Vec<u8>)
    requires
        from <= to <= src@.len(),
        to - from <= 32,
    ensures
        r@ == padded32(src@.subrange(from as int, to as int)),
{
    let mut out: Vec<u8> = Vec::new();
    let pad = 32 - (to - from);
    let mut i: usize = 0;
    while i < pad
        invariant
            0 <= i <= pad <= 32,
            out@.len() == i,
            forall|j: int| 0 <= j < i ==> out@[j] == 0u8,
        decreases pad - i,
    {
        out.push(0);
        i = i + 1;
    }
    append_slice(&mut out, src, from, to);
    proof {
        assert(out@ =~= padded32(src@.subrange(from as int, to as int)));
    }
    out
}

/// Converts a DER-encoded signature into fixed 32-byte big-endian R and S,
/// each left-padded with zeros, the sign-disambiguation byte stripped.
/// Fails with an execution error exactly when the DER structure is
/// malformed.
pub fn convert_der_to_rs(der: &[u8]) -> (r: Result<(Vec<u8>, Vec<u8>), ApduError>)
    ensures
        r is Ok <==> der_ok(der@),
        r matches Ok(p) ==> p.0@ == padded32(der_r_core(der@)) && p.1@ == padded32(
            der_s_core(der@),
        ),
        r matches Err(e) ==> e == ApduError::ExecutionError,
{
    let n = der.len();
    if n < 6 {
        return Err(ApduError::ExecutionError);
    }
    let b0 = *vstd::slice::slice_index_get(der, 0);
    let b1 = *vstd::slice::slice_index_get(der, 1);
    let b2 = *vstd::slice::slice_index_get(der, 2);
    let rl = *vstd::slice::slice_index_get(der, 3) as usize;
    if !(b0 == 0x30 && b1 as usize == n - 2 && b2 == 0x02 && 1 <= rl && rl <= 33) {
        return Err(ApduError::ExecutionError);
    }
    if n < 4 + rl + 2 {
        return Err(ApduError::ExecutionError);
    }
    let t2 = *vstd::slice::slice_index_get(der, 4 + rl);
    let sl = *vstd::slice::slice_index_get(der, 5 + rl) as usize;
    if !(t2 == 0x02 && 1 <= sl && sl <= 33 && 6 + rl + sl == n) {
        return Err(ApduError::ExecutionError);
    }
    if rl == 33 && *vstd::slice::slice_index_get(der, 4) != 0 {
        return Err(ApduError::ExecutionError);
    }
    if sl == 33 && *vstd::slice::slice_index_get(der, 6 + rl) != 0 {
        return Err(ApduError::ExecutionError);
    }
    let rv = if rl == 33 {
        pad32(der, 5, 4 + rl)
    } else {
        pad32(der, 4, 4 + rl)
    };
    let sv = if sl == 33 {
        pad32(der, 7 + rl, 6 + rl + sl)
    } else {
        pad32(der, 6 + rl, 6 + rl + sl)
    };
    Ok((rv, sv))
}

/// The replay-protected recovery byte: the parity of S's final byte when
/// the chain-id low byte is zero, otherwise `parity + chainIdLowByte * 2 +
/// 35` reduced modulo 256.
pub open spec fn recovery_byte_spec(s_last: u8, chain_low: u8) -> u8 {
    if chain_low == 0 {
        (s_last % 2) as u8
    } else {
        ((s_last % 2 + 2 * chain_low + 35) % 256) as u8
    }
}

/// Computes the recovery byte from S's final byte and the chain-id low byte.
pub fn recovery_byte(s_last: u8, chain_low: u8) -> (r: u8)
    ensures
        r == recovery_byte_spec(s_last, chain_low),
{
    if chain_low == 0 {
        s_last % 2
    } else {
        (((s_last % 2) as u16 + 2 * (chain_low as u16) + 35) % 256) as u8
    }
}

} // verus!

//! The key-derivation path carried by the init packet: a bounded sequence of
//! 4-byte big-endian components behind a one-byte count.
use vstd::prelude::*;
use crate::bytes::{be_u32, be_u32_spec};
use crate::error::ApduError;

verus! {

/// Greatest number of components a derivation path may carry.
pub const MAX_BIP32_PATH_DEPTH: usize = 10;

/// Key-derivation coordinates of the signing key. Set once at session start
/// from the init packet and cleared at session end.
#[derive(Clone, Debug)]
pub struct Bip32Path {
    pub components: Vec<u32>,
}

/// The path at the front of `d`: `Some((components, rest))` where `rest` is
/// the offset of the first byte after the path, or `None` when the count is
/// absent, too deep, or not fully backed by bytes.
pub open spec fn bip32_parse_spec(d: Seq<u8>) -> Option<(Seq<u32>, int)> {
    if d.len() < 1 {
        None
    } else {
        let c = d[0] as int;
        if c > MAX_BIP32_PATH_DEPTH || d.len() < 1 + 4 * c {
            None
        } else {
            Some((Seq::new(c as nat, |i: int| be_u32_spec(d, 1 + 4 * i) as u32), 1 + 4 * c))
        }
    }
}

/// Parses a derivation path from the front of `payload`, returning it with
/// the offset of the first unconsumed byte.
pub fn parse_bip32_eth(payload: &[u8]) -> (r: Result<(Bip32Path, usize), ApduError>)
    ensures
        r is Ok <==> bip32_parse_spec(payload@) is Some,
        r matches Ok(p) ==> bip32_parse_spec(payload@) == Some(((p.0.components@, p.1 as int))),
        r matches Err(e) ==> e == ApduError::DataInvalid,
{
    let n = payload.len();
    if n < 1 {
        return Err(ApduError::DataInvalid);
    }
    let c = *vstd::slice::slice_index_get(payload, 0) as usize;
    if c > MAX_BIP32_PATH_DEPTH || n < 1 + 4 * c {
        return Err(ApduError::DataInvalid);
    }
    let mut components: Vec<u32> = Vec::new();
    let mut i: usize = 0;
    while i < c
        invariant
            0 <= i <= c,
            c <= MAX_BIP32_PATH_DEPTH,
            1 + 4 * c <= n,
            n == payload@.len(),
            components@.len() == i,
            forall|j: int| 0 <= j < i ==> components@[j] == be_u32_spec(payload@, 1 + 4 * j),
        decreases c - i,
    {
        let v = be_u32(payload, 1 + 4 * i);
        components.push(v);
        i = i + 1;
    }
    proof {
        assert(components@ =~= bip32_parse_spec(payload@)->Some_0.0);
    }
    Ok((Bip32Path { components }, 1 + 4 * c))
}

} // verus!

//! Zero-copy decoders for the non-fungible transfer operation record and its
//! nested output record.
//!
//! Decoded values are borrowed views over the input bytes: nothing of the
//! payload is copied, and a record either decodes completely or fails with a
//! structural error that names what went wrong, leaving no partial value.
use vstd::prelude::*;
use crate::bytes::{be_bytes_as_u64, be_bytes_spec, be_u32, be_u32_spec};
use crate::error::ParserError;

verus! {

/// Wire tag of the non-fungible transfer operation record.
pub const NFT_TRANSFER_OP_TYPE_ID: u32 = 0x0d;

/// Byte length of an address in the output record's address list.
pub const ADDRESS_LEN: usize = 20;

/// Relies on `bytemuck::try_cast_slice`: reinterprets a byte slice as
/// consecutive 4-byte chunks over the same memory, without copying. The cast
/// cannot fail: the target's alignment is 1 and the length divides evenly.
#[verifier::external_body]
fn cast_u32_chunks<'a>(b: &'a [u8]) -> (r: &'a [[u8; 4]])
    requires
        b@.len() % 4 == 0,
    ensures
        r@.len() == b@.len() / 4,
        forall|i: int| 0 <= i < r@.len() ==> r@[i]@ == b@.subrange(4 * i, 4 * i + 4),
{
    bytemuck::try_cast_slice(b).unwrap()
}

/// Relies on `bytemuck::try_cast_slice`: reinterprets a byte slice as
/// consecutive 20-byte chunks over the same memory, without copying. The
/// cast cannot fail: the target's alignment is 1 and the length divides
/// evenly.
#[verifier::external_body]
fn cast_addr_chunks<'a>(b: &'a [u8]) -> (r: &'a [[u8; 20]])
    requires
        b@.len() % 20 == 0,
    ensures
        r@.len() == b@.len() / 20,
        forall|i: int| 0 <= i < r@.len() ==> r@[i]@ == b@.subrange(20 * i, 20 * i + 20),
{
    bytemuck::try_cast_slice(b).unwrap()
}

/// Nested output record of a non-fungible transfer: asset id, group id,
/// length-prefixed payload, lock time, signer threshold and address list.
#[derive(Clone, Copy, PartialEq, Debug)]
pub struct NFTTransferOutput<'b> {
    pub asset_id: u32,
    pub group_id: u32,
    pub payload: &'b [u8],
    pub locktime: u64,
    pub threshold: u32,
    pub addresses: &'b [[u8; 20]],
}

/// Bytes consumed by an output record at the front of `d`, or `None` when a
/// declared length implies more bytes than remain.
pub open spec fn nft_output_consumed(d: Seq<u8>) -> Option<int> {
    if d.len() < 12 {
        None
    } else {
        let pl = be_u32_spec(d, 8) as int;
        if d.len() < 28 + pl {
            None
        } else {
            let na = be_u32_spec(d, 24 + pl) as int;
            if d.len() < 28 + pl + 20 * na {
                None
            } else {
                Some(28 + pl + 20 * na)
            }
        }
    }
}

/// The decoded output record `out` is the borrowed view of the record at the
/// front of `d`.
pub open spec fn nft_output_matches(out: NFTTransferOutput, d: Seq<u8>) -> bool {
    let pl = be_u32_spec(d, 8) as int;
    let na = be_u32_spec(d, 24 + pl) as int;
    &&& out.asset_id == be_u32_spec(d, 0)
    &&& out.group_id == be_u32_spec(d, 4)
    &&& out.payload@ == d.subrange(12, 12 + pl)
    &&& out.locktime == be_bytes_spec(d, 12 + pl, 8)
    &&& out.threshold == be_u32_spec(d, 20 + pl)
    &&& out.addresses@.len() == na
    &&& forall|i: int|
        0 <= i < na ==> out.addresses@[i]@ == d.subrange(
            28 + pl + 20 * i,
            28 + pl + 20 * i + 20,
        )
}

impl<'b> NFTTransferOutput<'b> {
    /// Decodes an output record from the front of `input` and returns it with
    /// the number of bytes it consumed.
    pub fn from_bytes(input: &'b [u8]) -> (r: Result<(NFTTransferOutput<'b>, usize), ParserError>)
        ensures
            r is Ok <==> nft_output_consumed(input@) is Some,
            r matches Ok(p) ==> Some(p.1 as int) == nft_output_consumed(input@)
                && nft_output_matches(p.0, input@),
            r matches Err(e) ==> e == ParserError::UnexpectedBufferEnd,
    {
        let n = input.len();
        if n < 12 {
            return Err(ParserError::UnexpectedBufferEnd);
        }
        let asset_id = be_u32(input, 0);
        let group_id = be_u32(input, 4);
        let pl = be_u32(input, 8) as usize;
        if pl > n - 12 || n - 12 - pl < 16 {
            return Err(ParserError::UnexpectedBufferEnd);
        }
        let payload = vstd::slice::slice_subrange(input, 12, 12 + pl);
        let locktime = be_bytes_as_u64(input, 12 + pl, 8);
        let threshold = be_u32(input, 20 + pl);
        let na = be_u32(input, 24 + pl);
        let need = 20u64 * (na as u64);
        if need > (n - 28 - pl) as u64 {
            return Err(ParserError::UnexpectedBufferEnd);
        }
        let addr_len = need as usize;
        let raw = vstd::slice::slice_subrange(input, 28 + pl, 28 + pl + addr_len);
        let addresses = cast_addr_chunks(raw);
        proof {
            let d = input@;
            let pli = pl as int;
            let nai = na as int;
            assert forall|i: int| 0 <= i < nai implies addresses@[i]@ == d.subrange(
                28 + pli + 20 * i,
                28 + pli + 20 * i + 20,
            ) by {
                assert(addresses@[i]@ == raw@.subrange(20 * i, 20 * i + 20));
                assert(raw@.subrange(20 * i, 20 * i + 20) =~= d.subrange(
                    28 + pli + 20 * i,
                    28 + pli + 20 * i + 20,
                ));
            }
        }
        Ok((
            NFTTransferOutput { asset_id, group_id, payload, locktime, threshold, addresses },
            28 + pl + addr_len,
        ))
    }
}

/// A decoded transfer instruction: its address-index references and its
/// nested output record, borrowed from the input buffer.
#[derive(Clone, Copy, PartialEq, Debug)]
pub struct NFTTransferOperation<'b> {
    pub address_indices: &'b [[u8; 4]],
    pub nft_transfer_output: NFTTransferOutput<'b>,
}

/// The first four bytes of `d` spell the operation's wire tag.
pub open spec fn nft_op_tag_matches(d: Seq<u8>) -> bool {
    d.len() >= 4 && d[0] == 0 && d[1] == 0 && d[2] == 0 && d[3] == 0x0d
}

/// Bytes consumed by a transfer operation record at the front of `d`, or
/// `None` when the tag mismatches or a declared count overruns the input.
pub open spec fn nft_op_consumed(d: Seq<u8>) -> Option<int> {
    if d.len() < 8 || !nft_op_tag_matches(d) {
        None
    } else {
        let ni = be_u32_spec(d, 4) as int;
        if d.len() < 8 + 4 * ni {
            None
        } else {
            match nft_output_consumed(d.skip(8 + 4 * ni)) {
                Option::None => None,
                Option::Some(c) => Some(8 + 4 * ni + c),
            }
        }
    }
}

/// The decoded operation `op` is the borrowed view of the record at the
/// front of `d`.
pub open spec fn nft_op_matches(op: NFTTransferOperation, d: Seq<u8>) -> bool {
    let ni = be_u32_spec(d, 4) as int;
    &&& op.address_indices@.len() == ni
    &&& forall|i: int|
        0 <= i < ni ==> op.address_indices@[i]@ == d.subrange(8 + 4 * i, 8 + 4 * i + 4)
    &&& nft_output_matches(op.nft_transfer_output, d.skip(8 + 4 * ni))
}

impl<'b> NFTTransferOperation<'b> {
    /// Wire tag of this record, matched byte for byte before anything else.
    pub const TYPE_ID: u32 = 0x0d;

    /// Decodes a transfer operation from the front of `input`, returning the
    /// unconsumed remainder alongside the value.
    ///
    /// A wrong tag fails with a type error naming this record; a count that
    /// overruns the input fails as a short read.
    pub fn from_bytes(input: &'b [u8]) -> (r: Result<
        (&'b [u8], NFTTransferOperation<'b>),
        ParserError,
    >)
        ensures
            r is Ok <==> nft_op_consumed(input@) is Some,
            r matches Ok(p) ==> {
                let c = nft_op_consumed(input@)->Some_0;
                p.0@ == input@.subrange(c, input@.len() as int) && nft_op_matches(p.1, input@)
            },
            r == Err::<(&'b [u8], NFTTransferOperation<'b>), ParserError>(
                ParserError::UnexpectedType,
            ) <==> (input@.len() >= 4 && !nft_op_tag_matches(input@)),
            r matches Err(e) ==> (e == ParserError::UnexpectedType || e
                == ParserError::UnexpectedBufferEnd),
    {
        let n = input.len();
        if n >= 4 {
            let b0 = *vstd::slice::slice_index_get(input, 0);
            let b1 = *vstd::slice::slice_index_get(input, 1);
            let b2 = *vstd::slice::slice_index_get(input, 2);
            let b3 = *vstd::slice::slice_index_get(input, 3);
            if !(b0 == 0 && b1 == 0 && b2 == 0 && b3 == 0x0d) {
                return Err(ParserError::UnexpectedType);
            }
        } else {
            return Err(ParserError::UnexpectedBufferEnd);
        }
        if n < 8 {
            return Err(ParserError::UnexpectedBufferEnd);
        }
        let ni = be_u32(input, 4);
        let need = 4u64 * (ni as u64);
        if need > (n - 8) as u64 {
            return Err(ParserError::UnexpectedBufferEnd);
        }
        let ilen = need as usize;
        let raw = vstd::slice::slice_subrange(input, 8, 8 + ilen);
        let address_indices = cast_u32_chunks(raw);
        let rest = vstd::slice::slice_subrange(input, 8 + ilen, n);
        let (nft_transfer_output, out_consumed) = match NFTTransferOutput::from_bytes(rest) {
            Ok(p) => p,
            Err(e) => {
                return Err(e);
            },
        };
        let rem = vstd::slice::slice_subrange(rest, out_consumed, n - 8 - ilen);
        proof {
            let d = input@;
            let nii = ni as int;
            assert forall|i: int| 0 <= i < nii implies address_indices@[i]@ == d.subrange(
                8 + 4 * i,
                8 + 4 * i + 4,
            ) by {
                assert(address_indices@[i]@ == raw@.subrange(4 * i, 4 * i + 4));
                assert(raw@.subrange(4 * i, 4 * i + 4) =~= d.subrange(8 + 4 * i, 8 + 4 * i + 4));
            }
            assert(rest@ =~= d.skip(8 + 4 * nii));
            let c = nft_op_consumed(d)->Some_0;
            assert(rem@ =~= d.subrange(c, d.len() as int));
        }
        Ok((rem, NFTTransferOperation { address_indices, nft_transfer_output }))
    }

    /// Decodes into `out`, returning the unconsumed remainder.
    ///
    /// Decoding is atomic from the caller's perspective: `out` is written
    /// only when the whole record decodes, and is left untouched on failure.
    pub fn from_bytes_into(input: &'b [u8], out: &mut Option<NFTTransferOperation<'b>>) -> (r:
        Result<&'b [u8], ParserError>)
        ensures
            r is Ok <==> nft_op_consumed(input@) is Some,
            r matches Ok(rem) ==> {
                let c = nft_op_consumed(input@)->Some_0;
                rem@ == input@.subrange(c, input@.len() as int) && ((*final(out)) matches Some(op)
                    && nft_op_matches(op, input@))
            },
            r is Err ==> *final(out) == *old(out),
            r == Err::<&'b [u8], ParserError>(ParserError::UnexpectedType) <==> (input@.len() >= 4
                && !nft_op_tag_matches(input@)),
            r matches Err(e) ==> (e == ParserError::UnexpectedType || e
                == ParserError::UnexpectedBufferEnd),
    {
        match Self::from_bytes(input) {
            Ok((rem, op)) => {
                *out = Some(op);
                Ok(rem)
            },
            Err(e) => Err(e),
        }
    }
}

} // verus!

//! The typed, borrowed view of a reassembled chain transaction.
//!
//! The view is a pair-of-indices decomposition over the reassembly buffer:
//! nothing of the payload is copied. It records the transaction family, the
//! low byte of the chain id (needed for the replay-protected recovery byte)
//! and the exact number of bytes the encoded transaction occupies, so the
//! signing digest can be computed over that prefix alone.
use vstd::prelude::*;
use crate::error::ApduError;
use crate::rlp::{
    get_tx_rlp_len, lemma_header_in_bounds, lemma_header_recompute_stable, lemma_item_in_bounds,
    lemma_item_stable, lemma_skip_items_stable, rlp_header_spec, rlp_item, rlp_item_spec,
    skip_items, skip_items_spec, EIP1559_TX, EIP2930_TX,
};

verus! {

/// The transaction families the core decodes.
#[derive(Clone, Copy, Debug, PartialEq, Eq, Structural)]
pub enum TxVersion {
    Legacy,
    Eip2930,
    Eip1559,
}

/// Index of the list item that carries the chain id in family `v`.
///
/// The typed families open their list with the chain id; the legacy family
/// carries it as the seventh item of the unsigned encoding.
pub open spec fn chain_id_item_index(v: TxVersion) -> nat {
    match v {
        TxVersion::Legacy => 6,
        TxVersion::Eip2930 => 0,
        TxVersion::Eip1559 => 0,
    }
}

/// Typed decomposition of the front of the reassembly buffer.
#[derive(Clone, Copy, Debug, PartialEq, Eq, Structural)]
pub struct EthTransaction {
    /// The transaction family named by the version discriminant.
    pub version: TxVersion,
    /// Low byte of the chain id item, `0` when that item is empty.
    pub chain_id_low: u8,
    /// Offset of the first payload byte (end of the length header).
    pub payload_start: usize,
    /// Total bytes of the encoded transaction: header plus declared payload.
    /// The signing digest is computed over exactly this prefix.
    pub consumed: usize,
}

/// The transaction family named by the leading version discriminant.
pub open spec fn version_spec(d: Seq<u8>) -> TxVersion {
    if d.len() > 0 && d[0] == EIP2930_TX {
        TxVersion::Eip2930
    } else if d.len() > 0 && d[0] == EIP1559_TX {
        TxVersion::Eip1559
    } else {
        TxVersion::Legacy
    }
}

/// The view decoded from `d`, or `None` when the header is malformed, the
/// declared payload is not fully present, or the chain id item cannot be
/// reached inside the declared extent.
pub open spec fn eth_parse_spec(d: Seq<u8>) -> Option<EthTransaction> {
    match rlp_header_spec(d) {
        Option::None => None,
        Option::Some((read, to_read)) => {
            let consumed = read + to_read;
            if d.len() < consumed {
                None
            } else {
                let v = version_spec(d);
                match skip_items_spec(d, read as int, chain_id_item_index(v), consumed as int) {
                    Option::None => None,
                    Option::Some(pos) => match rlp_item_spec(d, pos, consumed as int) {
                        Option::None => None,
                        Option::Some((s, l)) => Some(
                            EthTransaction {
                                version: v,
                                chain_id_low: if l == 0 {
                                    0
                                } else {
                                    d[s + l - 1]
                                },
                                payload_start: read as usize,
                                consumed: consumed as usize,
                            },
                        ),
                    },
                }
            }
        },
    }
}

impl EthTransaction {
    /// Decodes the view from the front of `data`.
    ///
    /// Trailing bytes after the declared extent are tolerated and left
    /// unconsumed: on success `r.consumed <= data.len()` and the remainder
    /// is `data[r.consumed ..]`.
    pub fn from_bytes(data: &[u8]) -> (r: Result<EthTransaction, ApduError>)
        ensures
            r is Ok <==> eth_parse_spec(data@) is Some,
            r matches Ok(tx) ==> Some(tx) == eth_parse_spec(data@) && tx.consumed <= data@.len(),
            r matches Err(e) ==> e == ApduError::DataInvalid,
    {
        let n = data.len();
        let (read, to_read) = match get_tx_rlp_len(data) {
            Ok(p) => p,
            Err(e) => {
                return Err(e);
            },
        };
        proof {
            lemma_header_in_bounds(data@);
        }
        if to_read > (n - read) as u64 {
            return Err(ApduError::DataInvalid);
        }
        let consumed = read + to_read as usize;
        let first = *vstd::slice::slice_index_get(data, 0);
        let version = if first == EIP2930_TX {
            TxVersion::Eip2930
        } else if first == EIP1559_TX {
            TxVersion::Eip1559
        } else {
            TxVersion::Legacy
        };
        let idx: usize = match version {
            TxVersion::Legacy => 6,
            TxVersion::Eip2930 => 0,
            TxVersion::Eip1559 => 0,
        };
        let pos = match skip_items(data, read, idx, consumed) {
            Ok(p) => p,
            Err(e) => {
                return Err(e);
            },
        };
        let (s, l) = match rlp_item(data, pos, consumed) {
            Ok(p) => p,
            Err(e) => {
                return Err(e);
            },
        };
        proof {
            lemma_item_in_bounds(data@, pos as int, consumed as int);
        }
        let chain_id_low: u8 = if l == 0 {
            0
        } else {
            *vstd::slice::slice_index_get(data, s + l - 1)
        };
        Ok(EthTransaction { version, chain_id_low, payload_start: read, consumed })
    }

    /// Low byte of the transaction's chain id.
    pub fn chain_id_low_byte(&self) -> (r: u8)
        ensures
            r == self.chain_id_low,
    {
        self.chain_id_low
    }
}

/// Trailing-data tolerance: bytes appended after a complete, well-formed
/// transaction change neither the decoded view nor the prefix the signing
/// digest is computed over.
pub proof fn lemma_trailing_data_tolerance(d: Seq<u8>, extra: Seq<u8>)
    requires
        eth_parse_spec(d) is Some,
    ensures
        eth_parse_spec(d + extra) == eth_parse_spec(d),
        (d + extra).subrange(0, eth_parse_spec(d)->Some_0.consumed as int) == d.subrange(
            0,
            eth_parse_spec(d)->Some_0.consumed as int,
        ),
{
    let d2 = d + extra;
    lemma_header_recompute_stable(d, extra);
    let (read, to_read) = rlp_header_spec(d)->Some_0;
    let consumed = read + to_read;
    assert(d2[0] == d[0]);
    assert(version_spec(d2) == version_spec(d));
    let v = version_spec(d);
    lemma_skip_items_stable(d, extra, read as int, chain_id_item_index(v), consumed as int);
    let pos = skip_items_spec(d, read as int, chain_id_item_index(v), consumed as int)->Some_0;
    lemma_item_stable(d, extra, pos, consumed as int);
    let (s, l) = rlp_item_spec(d, pos, consumed as int)->Some_0;
    if l != 0 {
        lemma_item_in_bounds(d, pos, consumed as int);
        assert(d2[s + l - 1] == d[s + l - 1]);
    }
    assert((d + extra).subrange(0, consumed as int) =~= d.subrange(0, consumed as int));
}

} // verus!

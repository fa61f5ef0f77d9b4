//! The self-describing transaction length header and the item walk over the
//! length-prefixed list encoding that the supported transaction families use.
//!
//! The header parser returns (bytes consumed by the header, total payload
//! length declared by the header) without consuming the payload. The session
//! state machine recomputes this pair on every packet instead of caching it.
use vstd::prelude::*;
use crate::bytes::{be_bytes_as_u64, be_bytes_spec, lemma_be_bytes_bound, lemma_pow256_le, pow256};
use crate::error::ApduError;

verus! {

/// Version discriminant of the access-list transaction family.
pub const EIP2930_TX: u8 = 0x01;

/// Version discriminant of the dynamic-fee transaction family.
pub const EIP1559_TX: u8 = 0x02;

/// Bytes taken by the leading version discriminant, if one is present.
pub open spec fn version_offset_spec(d: Seq<u8>) -> int {
    if d.len() > 0 && (d[0] == EIP2930_TX || d[0] == EIP1559_TX) {
        1
    } else {
        0
    }
}

/// The length header at the front of `d`: `Some((read, to_read))` where
/// `read` is the number of bytes the header itself occupies (version
/// discriminant included) and `to_read` the payload length it declares, or
/// `None` when `d` is too short to hold the header.
pub open spec fn rlp_header_spec(d: Seq<u8>) -> Option<(nat, nat)> {
    let off = version_offset_spec(d);
    if d.len() <= off {
        None
    } else {
        let marker = d[off];
        if marker <= 0x7f {
            Some((((off + 1) as nat, 0 as nat)))
        } else if marker <= 0xb7 {
            Some((((off + 1) as nat, (marker - 0x80) as nat)))
        } else if marker <= 0xbf {
            let ll = marker - 0xb7;
            if d.len() < off + 1 + ll {
                None
            } else {
                Some((((off + 1 + ll) as nat, be_bytes_spec(d, off + 1, ll as int))))
            }
        } else if marker <= 0xf7 {
            Some((((off + 1) as nat, (marker - 0xc0) as nat)))
        } else {
            let ll = marker - 0xf7;
            if d.len() < off + 1 + ll {
                None
            } else {
                Some((((off + 1 + ll) as nat, be_bytes_spec(d, off + 1, ll as int))))
            }
        }
    }
}

/// The header never occupies more than 10 bytes and, when present, lies
/// entirely within `d`.
pub proof fn lemma_header_in_bounds(d: Seq<u8>)
    requires
        rlp_header_spec(d) is Some,
    ensures
        1 <= rlp_header_spec(d)->Some_0.0 <= d.len(),
        rlp_header_spec(d)->Some_0.0 <= 10,
        rlp_header_spec(d)->Some_0.1 < pow256(8),
{
    let off = version_offset_spec(d);
    let marker = d[off];
    if marker <= 0xb7 || (0xc0 <= marker && marker <= 0xf7) {
        lemma_pow256_le(1, 8);
        assert(pow256(0) == 1);
        assert(pow256(1) == 256 * pow256(0));
    } else {
        let ll = if marker <= 0xbf {
            marker - 0xb7
        } else {
            marker - 0xf7
        };
        lemma_be_bytes_bound(d, off + 1, ll as int);
        lemma_pow256_le(ll as nat, 8);
    }
}

/// Bytes equal on `[0, k)` read equal big-endian fields inside `[0, k)`.
proof fn lemma_be_bytes_eq(d1: Seq<u8>, d2: Seq<u8>, at: int, len: int)
    requires
        0 <= at,
        0 <= len,
        at + len <= d1.len(),
        at + len <= d2.len(),
        forall|i: int| at <= i < at + len ==> d1[i] == d2[i],
    ensures
        be_bytes_spec(d1, at, len) == be_bytes_spec(d2, at, len),
    decreases len,
{
    if len > 0 {
        lemma_be_bytes_eq(d1, d2, at, len - 1);
    }
}

/// Recomputing the header after appending bytes yields the identical pair:
/// the header is a function of the header bytes alone, so the accounting
/// re-derived on each continuation packet agrees with the packet before.
pub proof fn lemma_header_recompute_stable(d: Seq<u8>, extra: Seq<u8>)
    requires
        rlp_header_spec(d) is Some,
    ensures
        rlp_header_spec(d + extra) == rlp_header_spec(d),
{
    let d2 = d + extra;
    assert(d.len() >= 1);
    assert(d2[0] == d[0]);
    let off = version_offset_spec(d);
    assert(version_offset_spec(d2) == off);
    assert(d2[off] == d[off]);
    let marker = d[off];
    if marker > 0x7f && !(marker <= 0xb7) && marker <= 0xbf {
        let ll = marker - 0xb7;
        lemma_be_bytes_eq(d, d2, off + 1, ll as int);
    } else if marker > 0xf7 {
        let ll = marker - 0xf7;
        lemma_be_bytes_eq(d, d2, off + 1, ll as int);
    }
}

/// Truncating a buffer anywhere at or after the end of its header leaves
/// the header pair unchanged.
pub proof fn lemma_header_prefix_stable(d: Seq<u8>, k: int)
    requires
        rlp_header_spec(d) is Some,
        rlp_header_spec(d)->Some_0.0 <= k <= d.len(),
    ensures
        rlp_header_spec(d.take(k)) == rlp_header_spec(d),
{
    let w = d.take(k);
    lemma_header_in_bounds(d);
    assert(w[0] == d[0]);
    let off = version_offset_spec(d);
    assert(version_offset_spec(w) == off);
    assert(w[off] == d[off]);
    let marker = d[off];
    if marker > 0x7f && !(marker <= 0xb7) && marker <= 0xbf {
        let ll = marker - 0xb7;
        assert(forall|i: int| 0 <= i < k ==> w[i] == d[i]);
        lemma_be_bytes_eq(d, w, off + 1, ll as int);
    } else if marker > 0xf7 {
        let ll = marker - 0xf7;
        assert(forall|i: int| 0 <= i < k ==> w[i] == d[i]);
        lemma_be_bytes_eq(d, w, off + 1, ll as int);
    }
}

/// Parses the length header at the front of `data`.
///
/// Returns the pair `(read, to_read)` described by [`rlp_header_spec`], and
/// fails with a structural error exactly when the header is incomplete.
pub fn get_tx_rlp_len(data: &[u8]) -> (r: Result<(usize, u64), ApduError>)
    ensures
        r is Ok <==> rlp_header_spec(data@) is Some,
        r matches Ok(p) ==> rlp_header_spec(data@) == Some(((p.0 as nat, p.1 as nat))),
        r matches Err(e) ==> e == ApduError::DataInvalid,
{
    let n = data.len();
    if n == 0 {
        return Err(ApduError::DataInvalid);
    }
    let first = *vstd::slice::slice_index_get(data, 0);
    let off: usize = if first == EIP2930_TX || first == EIP1559_TX {
        1
    } else {
        0
    };
    if n <= off {
        return Err(ApduError::DataInvalid);
    }
    let marker = *vstd::slice::slice_index_get(data, off);
    if marker <= 0x7f {
        Ok((off + 1, 0))
    } else if marker <= 0xb7 {
        Ok((off + 1, (marker - 0x80) as u64))
    } else if marker <= 0xbf {
        let ll = (marker - 0xb7) as usize;
        if n < off + 1 + ll {
            return Err(ApduError::DataInvalid);
        }
        let num = be_bytes_as_u64(data, off + 1, ll);
        proof {
            lemma_be_bytes_bound(data@, off + 1, ll as int);
        }
        Ok((off + 1 + ll, num))
    } else if marker <= 0xf7 {
        Ok((off + 1, (marker - 0xc0) as u64))
    } else {
        let ll = (marker - 0xf7) as usize;
        if n < off + 1 + ll {
            return Err(ApduError::DataInvalid);
        }
        let num = be_bytes_as_u64(data, off + 1, ll);
        proof {
            lemma_be_bytes_bound(data@, off + 1, ll as int);
        }
        Ok((off + 1 + ll, num))
    }
}

/// The item whose encoding starts at `pos`, confined to `d[.. end]`:
/// `Some((content_start, content_len))`, where a single low byte stands for
/// itself, or `None` when the item is malformed or runs past `end`.
pub open spec fn rlp_item_spec(d: Seq<u8>, pos: int, end: int) -> Option<(int, int)> {
    if pos < 0 || pos >= end || end > d.len() {
        None
    } else {
        let marker = d[pos];
        if marker <= 0x7f {
            Some((pos, 1))
        } else if marker <= 0xb7 {
            let len = marker - 0x80;
            if pos + 1 + len <= end {
                Some((pos + 1, len as int))
            } else {
                None
            }
        } else if marker <= 0xbf {
            let ll = marker - 0xb7;
            if pos + 1 + ll <= end {
                let len = be_bytes_spec(d, pos + 1, ll as int);
                if pos + 1 + ll + len <= end {
                    Some((pos + 1 + ll, len as int))
                } else {
                    None
                }
            } else {
                None
            }
        } else if marker <= 0xf7 {
            let len = marker - 0xc0;
            if pos + 1 + len <= end {
                Some((pos + 1, len as int))
            } else {
                None
            }
        } else {
            let ll = marker - 0xf7;
            if pos + 1 + ll <= end {
                let len = be_bytes_spec(d, pos + 1, ll as int);
                if pos + 1 + ll + len <= end {
                    Some((pos + 1 + ll, len as int))
                } else {
                    None
                }
            } else {
                None
            }
        }
    }
}

/// A parsed item lies entirely inside `[pos, end)`.
pub proof fn lemma_item_in_bounds(d: Seq<u8>, pos: int, end: int)
    requires
        rlp_item_spec(d, pos, end) is Some,
    ensures
        ({
            let (s, l) = rlp_item_spec(d, pos, end)->Some_0;
            pos < s + l <= end && pos <= s && 0 <= l && pos >= 0 && end <= d.len()
        }),
{
    let marker = d[pos];
    if marker > 0xb7 && marker <= 0xbf {
        lemma_be_bytes_bound(d, pos + 1, (marker - 0xb7) as int);
    } else if marker > 0xf7 {
        lemma_be_bytes_bound(d, pos + 1, (marker - 0xf7) as int);
    }
}

/// The item parse reads `d` only inside `[0, end)`: bytes beyond `end` do
/// not affect it.
pub proof fn lemma_item_stable(d: Seq<u8>, extra: Seq<u8>, pos: int, end: int)
    requires
        end <= d.len(),
    ensures
        rlp_item_spec(d + extra, pos, end) == rlp_item_spec(d, pos, end),
{
    let d2 = d + extra;
    if 0 <= pos && pos < end {
        assert(d2[pos] == d[pos]);
        let marker = d[pos];
        if marker > 0xb7 && marker <= 0xbf {
            let ll = marker - 0xb7;
            if pos + 1 + ll <= end {
                lemma_be_bytes_eq(d, d2, pos + 1, ll as int);
            }
        } else if marker > 0xf7 {
            let ll = marker - 0xf7;
            if pos + 1 + ll <= end {
                lemma_be_bytes_eq(d, d2, pos + 1, ll as int);
            }
        }
    }
}

/// The position after skipping `k` items starting at `pos`, confined to
/// `d[.. end]`, or `None` when any of them is malformed.
pub open spec fn skip_items_spec(d: Seq<u8>, pos: int, k: nat, end: int) -> Option<int>
    decreases k,
{
    if k == 0 {
        Some(pos)
    } else {
        match rlp_item_spec(d, pos, end) {
            Option::None => None,
            Option::Some((s, l)) => skip_items_spec(d, s + l, (k - 1) as nat, end),
        }
    }
}

/// The item walk reads `d` only inside `[0, end)`.
pub proof fn lemma_skip_items_stable(d: Seq<u8>, extra: Seq<u8>, pos: int, k: nat, end: int)
    requires
        end <= d.len(),
    ensures
        skip_items_spec(d + extra, pos, k, end) == skip_items_spec(d, pos, k, end),
    decreases k,
{
    if k > 0 {
        lemma_item_stable(d, extra, pos, end);
        match rlp_item_spec(d, pos, end) {
            Option::None => {},
            Option::Some((s, l)) => {
                lemma_skip_items_stable(d, extra, s + l, (k - 1) as nat, end);
            },
        }
    }
}

/// Parses the item starting at `pos` within `data[.. end]`.
pub fn rlp_item(data: &[u8], pos: usize, end: usize) -> (r: Result<(usize, usize), ApduError>)
    requires
        end <= data@.len(),
    ensures
        r is Ok <==> rlp_item_spec(data@, pos as int, end as int) is Some,
        r matches Ok(p) ==> rlp_item_spec(data@, pos as int, end as int) == Some(
            ((p.0 as int, p.1 as int)),
        ),
        r matches Err(e) ==> e == ApduError::DataInvalid,
{
    if pos >= end {
        return Err(ApduError::DataInvalid);
    }
    let marker = *vstd::slice::slice_index_get(data, pos);
    if marker <= 0x7f {
        Ok((pos, 1))
    } else if marker <= 0xb7 {
        let len = (marker - 0x80) as usize;
        if len <= end - (pos + 1) {
            Ok((pos + 1, len))
        } else {
            Err(ApduError::DataInvalid)
        }
    } else if marker <= 0xbf || marker > 0xf7 {
        let ll = if marker <= 0xbf {
            (marker - 0xb7) as usize
        } else {
            (marker - 0xf7) as usize
        };
        if ll <= end - (pos + 1) {
            let len64 = be_bytes_as_u64(data, pos + 1, ll);
            proof {
                lemma_be_bytes_bound(data@, pos + 1 as int, ll as int);
            }
            if len64 <= (end - (pos + 1 + ll)) as u64 {
                Ok((pos + 1 + ll, len64 as usize))
            } else {
                Err(ApduError::DataInvalid)
            }
        } else {
            Err(ApduError::DataInvalid)
        }
    } else {
        let len = (marker - 0xc0) as usize;
        if len <= end - (pos + 1) {
            Ok((pos + 1, len))
        } else {
            Err(ApduError::DataInvalid)
        }
    }
}

/// Skips `k` items starting at `pos` within `data[.. end]`.
pub fn skip_items(data: &[u8], pos: usize, k: usize, end: usize) -> (r: Result<usize, ApduError>)
    requires
        end <= data@.len(),
    ensures
        r is Ok <==> skip_items_spec(data@, pos as int, k as nat, end as int) is Some,
        r matches Ok(p) ==> skip_items_spec(data@, pos as int, k as nat, end as int) == Some(
            p as int,
        ),
        r matches Err(e) ==> e == ApduError::DataInvalid,
{
    let mut cur: usize = pos;
    let mut i: usize = 0;
    while i < k
        invariant
            end <= data@.len(),
            0 <= i <= k,
            skip_items_spec(data@, pos as int, k as nat, end as int) == skip_items_spec(
                data@,
                cur as int,
                (k - i) as nat,
                end as int,
            ),
        decreases k - i,
    {
        match rlp_item(data, cur, end) {
            Ok((s, l)) => {
                proof {
                    lemma_item_in_bounds(data@, cur as int, end as int);
                }
                cur = s + l;
                i = i + 1;
            },
            Err(e) => {
                return Err(e);
            },
        }
    }
    Ok(cur)
}

} // verus!

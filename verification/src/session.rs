//! The packet-driven session state machine: init and continuation packets,
//! buffer reassembly, session lifecycle and unconditional cleanup.
//!
//! Session liveness is represented by the derivation-path resource being
//! claimed — there is no separate flag. The pending-length pair is
//! re-derived from the buffer's own header on every packet, never cached.
use vstd::prelude::*;
use crate::bip32::{bip32_parse_spec, parse_bip32_eth, Bip32Path};
use crate::error::ApduError;
use crate::lock::{Lock, BUFFER_CAPACITY};
use crate::eth_tx::{eth_parse_spec, EthTransaction};
use crate::rlp::{
    get_tx_rlp_len, lemma_header_in_bounds, lemma_header_prefix_stable,
    lemma_header_recompute_stable, rlp_header_spec,
};

verus! {

/// Auxiliary session metadata accumulated while parsing particular
/// transaction shapes, opaque to the core; cleared at session end.
#[derive(Clone, Debug)]
pub struct NftInfo {
    pub contents: Vec<u8>,
}

/// What the state machine reports after accepting a packet.
#[derive(Clone, Copy, Debug, PartialEq, Eq, Structural)]
pub enum HandleStatus {
    /// More continuation packets are expected.
    Collecting,
    /// Every declared byte has arrived: the session is ready to finalize.
    Ready,
}

/// Packet discriminant of an init packet.
pub const PACKET_INIT: u8 = 0x00;

/// Packet discriminant of a continuation packet.
pub const PACKET_NEXT: u8 = 0x80;

/// Total bytes the buffer's header declares: header bytes plus payload.
pub open spec fn buffer_total(b: Seq<u8>) -> int {
    (rlp_header_spec(b)->Some_0.0 + rlp_header_spec(b)->Some_0.1) as int
}

/// A reassembly buffer mid-session: its header parses, it never holds more
/// than the declared total, and it fits the fixed capacity.
pub open spec fn buffer_coherent(b: Seq<u8>) -> bool {
    &&& rlp_header_spec(b) is Some
    &&& b.len() <= buffer_total(b)
    &&& b.len() <= BUFFER_CAPACITY
}

/// One reassembly step: append `chunk` to `buf`, truncated to the bytes
/// still missing out of `total`; excess bytes are silently discarded.
pub open spec fn step(total: int, buf: Seq<u8>, chunk: Seq<u8>) -> Seq<u8>
    recommends
        buf.len() <= total,
{
    let missing = total - buf.len();
    let taken = if missing <= chunk.len() {
        missing
    } else {
        chunk.len() as int
    };
    buf + chunk.take(taken)
}

/// The concatenation of a sequence of packet payloads.
pub open spec fn concat_chunks(cs: Seq<Seq<u8>>) -> Seq<u8>
    decreases cs.len(),
{
    if cs.len() == 0 {
        Seq::empty()
    } else {
        cs[0] + concat_chunks(cs.drop_first())
    }
}

/// The buffer after feeding the packets `cs` one by one, starting from `buf`.
pub open spec fn reassemble(total: int, buf: Seq<u8>, cs: Seq<Seq<u8>>) -> Seq<u8>
    decreases cs.len(),
{
    if cs.len() == 0 {
        buf
    } else {
        reassemble(total, step(total, buf, cs[0]), cs.drop_first())
    }
}

/// Feeding packets one by one reconstructs exactly the concatenated byte
/// stream, truncated to the declared total.
pub proof fn lemma_reassemble_flatten(total: int, buf: Seq<u8>, cs: Seq<Seq<u8>>)
    requires
        0 <= buf.len() <= total,
    ensures
        ({
            let all = buf + concat_chunks(cs);
            reassemble(total, buf, cs) == if total <= all.len() {
                all.take(total)
            } else {
                all
            }
        }),
    decreases cs.len(),
{
    let all = buf + concat_chunks(cs);
    if cs.len() == 0 {
        assert(all =~= buf);
        if total <= all.len() {
            assert(all.take(total) =~= buf);
        }
    } else {
        let c0 = cs[0];
        let rest = cs.drop_first();
        let missing = total - buf.len();
        let b2 = step(total, buf, c0);
        lemma_reassemble_flatten(total, b2, rest);
        let all2 = b2 + concat_chunks(rest);
        if c0.len() <= missing {
            assert(c0.take(c0.len() as int) =~= c0);
            assert(all2 =~= all);
        } else {
            assert(b2.len() == total);
            assert(total <= all2.len());
            assert(all2.take(total) =~= b2);
            assert(total <= all.len());
            assert(all.take(total) =~= b2);
        }
    }
}

/// Reassembly correctness: chunking is transparent. Any two splits of the
/// same byte stream, fed packet by packet from an empty buffer, reconstruct
/// the same buffer.
pub proof fn lemma_reassembly_chunking(total: int, cs1: Seq<Seq<u8>>, cs2: Seq<Seq<u8>>)
    requires
        0 <= total,
        concat_chunks(cs1) == concat_chunks(cs2),
    ensures
        reassemble(total, Seq::empty(), cs1) == reassemble(total, Seq::empty(), cs2),
{
    lemma_reassemble_flatten(total, Seq::empty(), cs1);
    lemma_reassemble_flatten(total, Seq::empty(), cs2);
    assert(Seq::<u8>::empty() + concat_chunks(cs1) =~= concat_chunks(cs1));
    assert(Seq::<u8>::empty() + concat_chunks(cs2) =~= concat_chunks(cs2));
}

/// The process-wide session resources, passed explicitly instead of living
/// as ambient globals: the derivation path, the reassembly buffer and the
/// auxiliary metadata, each behind its own exclusive claim.
pub struct Sign {
    pub path: Lock<Option<Bip32Path>>,
    pub buffer: Lock<Vec<u8>>,
    pub nft_info: Lock<Option<NftInfo>>,
}

impl Sign {
    /// Byte length of the signing digest handed back by the digest
    /// primitive.
    pub const SIGN_HASH_SIZE: usize = 32;

    /// A session is live exactly when the derivation path is claimed.
    pub open spec fn session_live(&self) -> bool {
        self.path.is_claimed()
    }

    /// All three guarded resources unclaimed and cleared.
    pub open spec fn torn_down(&self) -> bool {
        &&& !self.path.is_claimed() && self.path.val() is None
        &&& !self.buffer.is_claimed() && self.buffer.val()@.len() == 0
        &&& !self.nft_info.is_claimed() && self.nft_info.val() is None
    }

    /// An unclaimed resource never carries stale contents.
    pub open spec fn cleared_when_unclaimed(&self) -> bool {
        &&& (!self.path.is_claimed() ==> self.path.val() is None)
        &&& (!self.buffer.is_claimed() ==> self.buffer.val()@.len() == 0)
        &&& (!self.nft_info.is_claimed() ==> self.nft_info.val() is None)
    }

    /// Session well-formedness, preserved by every operation.
    pub open spec fn wf(&self) -> bool {
        &&& self.buffer.is_claimed() == self.path.is_claimed()
        &&& (self.path.is_claimed() ==> self.path.val() is Some)
        &&& (self.buffer.is_claimed() ==> buffer_coherent(self.buffer.val()@))
        &&& self.cleared_when_unclaimed()
    }

    /// A fresh, idle session: nothing claimed, nothing stored.
    pub fn new() -> (s: Sign)
        ensures
            s.torn_down(),
            s.wf(),
    {
        Sign {
            path: Lock::new(None),
            buffer: Lock::new(Vec::new()),
            nft_info: Lock::new(None),
        }
    }

    /// The derivation path of the live session, or a conditions-not-satisfied
    /// error when no session holds one (for instance after cleanup).
    pub fn get_derivation_info(&self) -> (r: Result<&Bip32Path, ApduError>)
        ensures
            r is Ok <==> (self.path.is_claimed() && self.path.val() is Some),
            r matches Ok(p) ==> self.path.val() == Some(*p),
            r matches Err(e) ==> e == ApduError::ConditionsNotSatisfied,
    {
        match self.path.acquire() {
            Err(_) => Err(ApduError::ConditionsNotSatisfied),
            Ok(()) => match self.path.borrow_value() {
                Some(p) => Ok(p),
                None => Err(ApduError::ConditionsNotSatisfied),
            },
        }
    }

    /// Records auxiliary metadata for the current transaction, claiming the
    /// resource if it was free.
    pub fn set_nft_info(&mut self, info: NftInfo)
        ensures
            final(self).nft_info.is_claimed(),
            final(self).nft_info.val() matches Some(i) && i.contents@ == info.contents@,
            final(self).path == old(self).path,
            final(self).buffer == old(self).buffer,
    {
        match self.nft_info.acquire() {
            Ok(()) => {},
            Err(_) => {
                let r = self.nft_info.lock();
                proof {
                    assert(r is Ok);
                }
            },
        }
        self.nft_info.set(Some(info));
    }

    /// Takes the auxiliary metadata out of the resource, leaving it cleared;
    /// yields nothing when the resource is unclaimed.
    pub fn take_nft_info(&mut self) -> (r: Option<NftInfo>)
        ensures
            old(self).nft_info.is_claimed() ==> (r == old(self).nft_info.val()
                && final(self).nft_info.is_claimed() && final(self).nft_info.val() is None),
            !old(self).nft_info.is_claimed() ==> (r is None
                && final(self).nft_info == old(self).nft_info),
            final(self).path == old(self).path,
            final(self).buffer == old(self).buffer,
    {
        match self.nft_info.acquire() {
            Err(_) => None,
            Ok(()) => self.nft_info.replace_value(None),
        }
    }

    /// Drives the state machine with one packet.
    ///
    /// An init packet (valid only with no live session) parses the
    /// derivation path, claims the resources, re-derives the length header
    /// and stores the first bytes; a continuation packet appends to the
    /// buffer after re-scanning the header already stored at its front.
    /// Excess bytes beyond the declared total are silently discarded. The
    /// result reports whether every declared byte has arrived.
    pub fn handle(&mut self, packet_type: u8, payload: &[u8]) -> (r: Result<
        HandleStatus,
        ApduError,
    >)
        requires
            old(self).wf(),
        ensures
            final(self).wf(),
            (packet_type != PACKET_INIT && packet_type != PACKET_NEXT) ==> (r == Err::<HandleStatus, ApduError>(ApduError::InvalidP1P2) && *final(self) == *old(self)),
            (packet_type == PACKET_INIT && bip32_parse_spec(payload@) is None) ==> (r == Err::<HandleStatus, ApduError>(ApduError::DataInvalid) && *final(self) == *old(self)),
            (packet_type == PACKET_INIT && bip32_parse_spec(payload@) is Some && old(
                self,
            ).session_live()) ==> (r == Err::<HandleStatus, ApduError>(ApduError::ConditionsNotSatisfied) && *final(self) == *old(self)),
            (packet_type == PACKET_INIT && bip32_parse_spec(payload@) is Some && !old(
                self,
            ).session_live()) ==> ({
                let comps = bip32_parse_spec(payload@)->Some_0.0;
                let rest = payload@.skip(bip32_parse_spec(payload@)->Some_0.1);
                if rlp_header_spec(rest) is None {
                    r == Err::<HandleStatus, ApduError>(ApduError::DataInvalid) && final(self).torn_down()
                } else {
                    let written = step(buffer_total(rest), Seq::empty(), rest);
                    if written.len() <= BUFFER_CAPACITY {
                        &&& r is Ok
                        &&& final(self).session_live()
                        &&& (final(self).path.val() matches Some(p) && p.components@ == comps)
                        &&& final(self).buffer.val()@ == written
                        &&& (r == Ok::<HandleStatus, ApduError>(HandleStatus::Ready) <==> written.len()
                            == buffer_total(rest))
                    } else {
                        r == Err::<HandleStatus, ApduError>(ApduError::ExecutionError) && final(self).torn_down()
                    }
                }
            }),
            (packet_type == PACKET_NEXT && !old(self).session_live()) ==> (r == Err::<HandleStatus, ApduError>(ApduError::ConditionsNotSatisfied) && *final(self) == *old(self)),
            (packet_type == PACKET_NEXT && old(self).session_live()) ==> ({
                let b = old(self).buffer.val()@;
                let written = step(buffer_total(b), b, payload@);
                if written.len() <= BUFFER_CAPACITY {
                    &&& r is Ok
                    &&& final(self).session_live()
                    &&& final(self).path == old(self).path
                    &&& final(self).buffer.val()@ == written
                    &&& (r == Ok::<HandleStatus, ApduError>(HandleStatus::Ready) <==> written.len()
                        == buffer_total(b))
                } else {
                    r == Err::<HandleStatus, ApduError>(ApduError::ExecutionError) && final(self).torn_down()
                }
            }),
    {
        if packet_type == PACKET_INIT {
            let (path, rest0) = match parse_bip32_eth(payload) {
                Ok(p) => p,
                Err(e) => {
                    return Err(e);
                },
            };
            match self.path.lock() {
                Ok(()) => {},
                Err(e) => {
                    return Err(e);
                },
            }
            self.path.set(Some(path));
            let rest = vstd::slice::slice_subrange(payload, rest0, payload.len());
            let (read, to_read) = match get_tx_rlp_len(rest) {
                Ok(p) => p,
                Err(e) => {
                    let _ = cleanup_globals(self);
                    return Err(e);
                },
            };
            match self.buffer.lock() {
                Ok(()) => {},
                Err(_) => {
                    proof {
                        assert(false);
                    }
                    return Err(ApduError::ExecutionError);
                },
            }
            self.buffer.reset();
            let total: u128 = read as u128 + to_read as u128;
            let rlen = rest.len();
            let len: usize = if (rlen as u128) <= total {
                rlen
            } else {
                total as usize
            };
            proof {
                lemma_header_in_bounds(rest@);
                assert(len as int == step(buffer_total(rest@), Seq::empty(), rest@).len());
            }
            match self.buffer.write(rest, 0, len) {
                Ok(()) => {},
                Err(_) => {
                    let _ = cleanup_globals(self);
                    return Err(ApduError::ExecutionError);
                },
            }
            proof {
                let ghost written = step(buffer_total(rest@), Seq::empty(), rest@);
                assert(self.buffer.val()@ =~= written);
                lemma_header_prefix_stable(rest@, len as int);
            }
            if total == len as u128 {
                Ok(HandleStatus::Ready)
            } else {
                Ok(HandleStatus::Collecting)
            }
        } else if packet_type == PACKET_NEXT {
            match self.buffer.acquire() {
                Ok(()) => {},
                Err(e) => {
                    return Err(e);
                },
            }
            let (read, to_read) = {
                let data = self.buffer.borrow_value().as_slice();
                match get_tx_rlp_len(data) {
                    Ok(p) => p,
                    Err(_) => {
                        proof {
                            assert(false);
                        }
                        return Err(ApduError::DataInvalid);
                    },
                }
            };
            let buflen = self.buffer.len();
            proof {
                lemma_header_in_bounds(self.buffer.val()@);
            }
            let total: u128 = read as u128 + to_read as u128;
            let missing: u128 = total - buflen as u128;
            let plen = payload.len();
            let len: usize = if (plen as u128) <= missing {
                plen
            } else {
                missing as usize
            };
            proof {
                assert((buflen + len) as int == step(
                    buffer_total(old(self).buffer.val()@),
                    old(self).buffer.val()@,
                    payload@,
                ).len());
            }
            match self.buffer.write(payload, 0, len) {
                Ok(()) => {},
                Err(_) => {
                    let _ = cleanup_globals(self);
                    return Err(ApduError::ExecutionError);
                },
            }
            proof {
                let ghost b = old(self).buffer.val()@;
                let ghost written = step(buffer_total(b), b, payload@);
                assert(payload@.subrange(0, len as int) =~= payload@.take(len as int));
                assert(self.buffer.val()@ =~= written);
                lemma_header_recompute_stable(b, payload@.take(len as int));
                assert(b + payload@.take(len as int) == written);
            }
            let newlen = self.buffer.len();
            if (newlen as u128) == total {
                Ok(HandleStatus::Ready)
            } else {
                Ok(HandleStatus::Collecting)
            }
        } else {
            Err(ApduError::InvalidP1P2)
        }
    }
}

impl Sign {
    /// Finalizes a fully-collected session: decodes the typed view over the
    /// buffer and returns it with a copy of the exact prefix the signing
    /// digest must be computed over (trailing bytes excluded). On a parse
    /// failure the session is torn down.
    pub fn start_sign(&mut self) -> (r: Result<(Vec<u8>, EthTransaction), ApduError>)
        requires
            old(self).wf(),
        ensures
            final(self).wf(),
            !old(self).session_live() ==> (r == Err::<(Vec<u8>, EthTransaction), ApduError>(
                ApduError::ConditionsNotSatisfied,
            ) && *final(self) == *old(self)),
            (old(self).session_live() && eth_parse_spec(old(self).buffer.val()@) is None) ==> (r
                == Err::<(Vec<u8>, EthTransaction), ApduError>(ApduError::DataInvalid)
                && final(self).torn_down()),
            (old(self).session_live() && eth_parse_spec(old(self).buffer.val()@) is Some) ==> ({
                let tx = eth_parse_spec(old(self).buffer.val()@)->Some_0;
                r matches Ok(p) && p.1 == tx && p.0@ == old(self).buffer.val()@.take(
                    tx.consumed as int,
                ) && *final(self) == *old(self)
            }),
    {
        match self.buffer.acquire() {
            Ok(()) => {},
            Err(e) => {
                return Err(e);
            },
        }
        let tx = {
            let data = self.buffer.borrow_value().as_slice();
            EthTransaction::from_bytes(data)
        };
        match tx {
            Err(e) => {
                let _ = cleanup_globals(self);
                Err(e)
            },
            Ok(tx) => {
                let mut prefix: Vec<u8> = Vec::new();
                let data = self.buffer.borrow_value().as_slice();
                crate::bytes::append_slice(&mut prefix, data, 0, tx.consumed);
                proof {
                    assert(prefix@ =~= old(self).buffer.val()@.take(tx.consumed as int));
                }
                Ok((prefix, tx))
            },
        }
    }
}

/// Cleanup totality: a torn-down session is idle and well-formed again, so
/// the state machine's own contract guarantees that the next well-formed
/// init packet is accepted.
pub proof fn lemma_torn_down_idle(s: Sign)
    requires
        s.torn_down(),
    ensures
        !s.session_live(),
        s.wf(),
{
}

/// Unconditional session teardown: for each guarded resource, acquire it if
/// possible, clear its contents and release the claim; a resource that
/// cannot be acquired is silently left to its holder. Never fails outward.
pub fn cleanup_globals(s: &mut Sign) -> (r: Result<(), ApduError>)
    requires
        old(s).cleared_when_unclaimed(),
    ensures
        r is Ok,
        final(s).torn_down(),
        final(s).wf(),
{
    match s.path.acquire() {
        Ok(()) => {
            s.path.set(None);
            let _ = s.path.release();
        },
        Err(_) => {},
    }
    match s.buffer.acquire() {
        Ok(()) => {
            s.buffer.reset();
            let _ = s.buffer.release();
        },
        Err(_) => {},
    }
    match s.nft_info.acquire() {
        Ok(()) => {
            s.nft_info.set(None);
            let _ = s.nft_info.release();
        },
        Err(_) => {},
    }
    Ok(())
}

} // verus!

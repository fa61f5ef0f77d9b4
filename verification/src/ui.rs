//! The review protocol: the parsed transaction exposed for paginated
//! on-device display, and the operator's accept/reject decision carried
//! into signature assembly and session teardown.
use vstd::prelude::*;
use crate::bytes::{append_slice, hex_encode, hex_of};
use crate::error::{ApduError, ViewError, APDU_CODE_SUCCESS};
use crate::eth_tx::{EthTransaction, TxVersion};
use crate::lock::BUFFER_CAPACITY;
use crate::session::{cleanup_globals, Sign};
use crate::sig::{
    convert_der_to_rs, der_ok, der_r_core, der_s_core, padded32, recovery_byte, recovery_byte_spec,
};

verus! {

/// Review items a transaction exposes: its family and its raw signed bytes.
pub const NUM_REVIEW_ITEMS: u8 = 2;

/// Characters of one message page.
pub const PAGE_SIZE: usize = 128;

/// ASCII title of review item `item`.
pub open spec fn title_spec(item: int) -> Seq<u8> {
    if item == 0 {
        seq![0x54u8, 0x79u8, 0x70u8, 0x65u8]  // "Type"
    } else {
        seq![0x44u8, 0x61u8, 0x74u8, 0x61u8]  // "Data"
    }
}

/// ASCII name of the transaction family.
pub open spec fn version_label_spec(v: TxVersion) -> Seq<u8> {
    match v {
        TxVersion::Legacy => seq![0x4cu8, 0x65u8, 0x67u8, 0x61u8, 0x63u8, 0x79u8],
        TxVersion::Eip2930 => seq![
            0x45u8,
            0x49u8,
            0x50u8,
            0x2du8,
            0x32u8,
            0x39u8,
            0x33u8,
            0x30u8,
        ],
        TxVersion::Eip1559 => seq![
            0x45u8,
            0x49u8,
            0x50u8,
            0x2du8,
            0x31u8,
            0x35u8,
            0x35u8,
            0x39u8,
        ],
    }
}

/// Number of pages needed for a message of `len` characters; an empty
/// message still occupies one page.
pub open spec fn page_count_spec(len: int) -> int {
    if len == 0 {
        1
    } else {
        (len + PAGE_SIZE - 1) / PAGE_SIZE as int
    }
}

/// The reviewable session handle: the signing digest and the typed view,
/// handed to the display surface while the session awaits the operator.
pub struct SignUI {
    /// The 256-bit signing digest computed over the consumed prefix.
    pub hash: Vec<u8>,
    /// The typed view of the transaction under review.
    pub tx: EthTransaction,
}

impl SignUI {
    /// How many logical review items the transaction exposes.
    pub fn num_items(&self) -> (r: u8)
        ensures
            r == NUM_REVIEW_ITEMS,
    {
        NUM_REVIEW_ITEMS
    }

    /// Renders one page of one item into fresh title and message buffers,
    /// returning them with the item's total page count. Fails when the item
    /// or page is out of range.
    ///
    /// The message of the raw-bytes item is the hexadecimal rendering of the
    /// signed prefix of the session's buffer, paginated.
    pub fn render_item(&self, session: &Sign, item_n: u8, page: u8) -> (r: Result<
        (Vec<u8>, Vec<u8>, u8),
        ViewError,
    >)
        requires
            session.wf(),
            session.session_live(),
            self.tx.consumed <= session.buffer.val()@.len(),
        ensures
            item_n >= NUM_REVIEW_ITEMS ==> r == Err::<(Vec<u8>, Vec<u8>, u8), ViewError>(
                ViewError::NoData,
            ),
            item_n == 0 && page == 0 ==> (r matches Ok(p) && p.0@ == title_spec(0) && p.1@
                == version_label_spec(self.tx.version) && p.2 == 1),
            item_n == 0 && page > 0 ==> r == Err::<(Vec<u8>, Vec<u8>, u8), ViewError>(
                ViewError::NoData,
            ),
            item_n == 1 ==> ({
                let hex = hex_of(session.buffer.val()@.take(self.tx.consumed as int));
                let pages = page_count_spec(hex.len() as int);
                if page < pages {
                    r matches Ok(p) && p.0@ == title_spec(1) && p.2 == pages && p.1@
                        == hex.subrange(
                        page * PAGE_SIZE,
                        if (page + 1) * PAGE_SIZE <= hex.len() {
                            (page + 1) * PAGE_SIZE as int
                        } else {
                            hex.len() as int
                        },
                    )
                } else {
                    r == Err::<(Vec<u8>, Vec<u8>, u8), ViewError>(ViewError::NoData)
                }
            }),
    {
        if item_n == 0 {
            if page > 0 {
                return Err(ViewError::NoData);
            }
            let mut title: Vec<u8> = Vec::new();
            title.push(0x54);
            title.push(0x79);
            title.push(0x70);
            title.push(0x65);
            let mut message: Vec<u8> = Vec::new();
            match self.tx.version {
                TxVersion::Legacy => {
                    message.push(0x4c);
                    message.push(0x65);
                    message.push(0x67);
                    message.push(0x61);
                    message.push(0x63);
                    message.push(0x79);
                },
                TxVersion::Eip2930 => {
                    message.push(0x45);
                    message.push(0x49);
                    message.push(0x50);
                    message.push(0x2d);
                    message.push(0x32);
                    message.push(0x39);
                    message.push(0x33);
                    message.push(0x30);
                },
                TxVersion::Eip1559 => {
                    message.push(0x45);
                    message.push(0x49);
                    message.push(0x50);
                    message.push(0x2d);
                    message.push(0x31);
                    message.push(0x35);
                    message.push(0x35);
                    message.push(0x39);
                },
            }
            proof {
                assert(title@ =~= title_spec(0));
                assert(message@ =~= version_label_spec(self.tx.version));
            }
            Ok((title, message, 1))
        } else if item_n == 1 {
            let data = session.buffer.borrow_value().as_slice();
            proof {
                assert(session.buffer.val()@.len() <= BUFFER_CAPACITY);
            }
            let hex = hex_encode(data, 0, self.tx.consumed);
            proof {
                assert(data@.subrange(0, self.tx.consumed as int) =~= session.buffer.val()@.take(
                    self.tx.consumed as int,
                ));
            }
            let hexlen = hex.len();
            let pages: usize = if hexlen == 0 {
                1
            } else {
                (hexlen + PAGE_SIZE - 1) / PAGE_SIZE
            };
            if (page as usize) >= pages {
                return Err(ViewError::NoData);
            }
            let mut title: Vec<u8> = Vec::new();
            title.push(0x44);
            title.push(0x61);
            title.push(0x74);
            title.push(0x61);
            let from = (page as usize) * PAGE_SIZE;
            let to = if from + PAGE_SIZE <= hexlen {
                from + PAGE_SIZE
            } else {
                hexlen
            };
            let mut message: Vec<u8> = Vec::new();
            append_slice(&mut message, hex.as_slice(), from, to);
            proof {
                assert(title@ =~= title_spec(1));
                assert(message@ =~= hex@.subrange(from as int, to as int));
            }
            Ok((title, message, pages as u8))
        } else {
            Err(ViewError::NoData)
        }
    }

    /// The operator approved: assemble the wire signature from the signing
    /// primitive's DER output (`None` when the primitive itself failed).
    ///
    /// Succeeds only while the derivation path is still held; the session is
    /// torn down before the conversion, so a later formatting failure still
    /// leaves it fully released. The response is the recovery byte, 32-byte
    /// R and 32-byte S with a success status, or zero bytes with the
    /// specific error status.
    pub fn accept(&self, session: &mut Sign, der: Option<&[u8]>) -> (r: (Vec<u8>, u16))
        requires
            old(session).cleared_when_unclaimed(),
        ensures
            final(session).cleared_when_unclaimed(),
            old(session).wf() ==> final(session).wf(),
            !(old(session).path.is_claimed() && old(session).path.val() is Some) ==> (r.0@.len()
                == 0 && r.1 == ApduError::ConditionsNotSatisfied.code_spec() && *final(session)
                == *old(session)),
            (old(session).path.is_claimed() && old(session).path.val() is Some) ==> match der {
                Option::None => r.0@.len() == 0 && r.1 == ApduError::ExecutionError.code_spec()
                    && final(session).torn_down(),
                Option::Some(d) => {
                    if der_ok(d@) {
                        let rr = padded32(der_r_core(d@));
                        let ss = padded32(der_s_core(d@));
                        &&& r.1 == APDU_CODE_SUCCESS
                        &&& r.0@.len() == 65
                        &&& r.0@ == seq![recovery_byte_spec(ss[31], self.tx.chain_id_low)] + rr
                            + ss
                        &&& final(session).torn_down()
                    } else {
                        r.0@.len() == 0 && r.1 == ApduError::ExecutionError.code_spec()
                            && final(session).torn_down()
                    }
                },
            },
    {
        match session.get_derivation_info() {
            Err(e) => {
                return (Vec::new(), e.code());
            },
            Ok(_) => {},
        }
        let d = match der {
            None => {
                let _ = cleanup_globals(session);
                return (Vec::new(), ApduError::ExecutionError.code());
            },
            Some(d) => d,
        };
        let _ = cleanup_globals(session);
        match convert_der_to_rs(d) {
            Err(e) => (Vec::new(), e.code()),
            Ok((rv, sv)) => {
                let s_last = rv_last(&sv);
                let v = recovery_byte(s_last, self.tx.chain_id_low_byte());
                let mut out: Vec<u8> = Vec::new();
                out.push(v);
                append_slice(&mut out, rv.as_slice(), 0, 32);
                append_slice(&mut out, sv.as_slice(), 0, 32);
                proof {
                    assert(out@ =~= seq![v] + rv@ + sv@);
                }
                (out, APDU_CODE_SUCCESS)
            },
        }
    }

    /// The operator rejected: tear the session down and answer with zero
    /// bytes and the fixed command-not-allowed status. Safe to call again
    /// when the session is already torn down.
    pub fn reject(&self, session: &mut Sign) -> (r: (Vec<u8>, u16))
        requires
            old(session).cleared_when_unclaimed(),
        ensures
            r.0@.len() == 0,
            r.1 == ApduError::CommandNotAllowed.code_spec(),
            final(session).torn_down(),
            final(session).wf(),
    {
        let _ = cleanup_globals(session);
        (Vec::new(), ApduError::CommandNotAllowed.code())
    }
}

/// The final byte of a 32-byte integer, whose parity feeds the recovery
/// byte.
fn rv_last(v: &Vec<u8>) -> (r: u8)
    requires
        v@.len() == 32,
    ensures
        r == v@[31],
{
    v[31]
}

} // verus!

//! The protocol engine: the pure state machines that drive one read
//! or one write transfer, the negotiation of options on a new
//! request, and the response sequences the dispatcher turns into
//! datagrams.

use vstd::prelude::*;
use vstd::utf8::encode_utf8;
use vstd::string::StringExecFns;
use crate::options::TftpOption;
use crate::packet::{ErrorCode, Packet, PacketModel, TransferMode, default_msg_view};
use crate::policy::{IOAdapter, IOPolicyCfg, IOPolicyProxy, ReadSource, WriteSink, path_refused};
use crate::serial::{
    lemma_serial_add_chain, serial_add, serial_add16, serial_distance, serial_distance16,
    serial_gt16, serial_lt16, serial_precedes,
};

verus! {

/// Why the proto layer refuses to act on a packet.
#[derive(PartialEq, Eq, Structural, Clone, Copy, Debug)]
pub enum TftpError {
    /// The transfer is already running and cannot be restarted.
    TransferAlreadyRunning,
    /// The received packet kind cannot initiate a transfer.
    NotInitiatingPacket,
}

/// One step of a transfer's reply: a packet to send, an order to
/// resend the last `n` previously sent datagrams, or the end of the
/// transfer.
#[derive(PartialEq, Debug)]
pub enum ResponseItem {
    Packet(Packet),
    Done,
    RepeatLast(usize),
}

/// An ordered sequence of reply steps.
#[derive(Debug)]
pub struct Response {
    pub items: Vec<ResponseItem>,
}

impl View for Response {
    type V = Seq<ResponseItem>;

    open spec fn view(&self) -> Seq<ResponseItem> {
        self.items@
    }
}

impl Response {
    /// The next reply step, front first.
    pub fn next(&mut self) -> (r: Option<ResponseItem>)
        ensures
            old(self)@.len() == 0 ==> r is None && final(self)@ == old(self)@,
            old(self)@.len() > 0 ==> r == Some(old(self)@[0]) && final(self)@ == old(self)@.skip(
                1,
            ),
    {
        if self.items.len() == 0 {
            None
        } else {
            let item = self.items.remove(0);
            proof {
                assert(old(self)@.remove(0) =~= old(self)@.skip(1));
            }
            Some(item)
        }
    }
}

/// The negotiated shape of a transfer.
#[derive(PartialEq, Eq, Structural, Clone, Copy, Debug)]
pub struct TransferMeta {
    /// Bytes per DATA block.
    pub blocksize: u16,
    /// The idle timeout the client negotiated, if any.
    pub timeout: Option<u8>,
    /// Whether the last timer expiry went unanswered.
    pub timed_out: bool,
    /// How many DATA blocks may be outstanding.
    pub window_size: u16,
}

/// The meta a transfer starts from before options are applied.
pub open spec fn default_meta() -> TransferMeta {
    TransferMeta { blocksize: 512, timeout: None, timed_out: false, window_size: 1 }
}

// ---------------------------------------------------------------
// Spec helpers over response sequences
// ---------------------------------------------------------------

/// The item sends a packet whose model is `m`.
pub open spec fn item_is_packet(i: ResponseItem, m: PacketModel) -> bool {
    i matches ResponseItem::Packet(p) && p@ == m
}

/// The item sends the ERROR packet with code `code` and message
/// `msg`.
pub open spec fn item_is_error(i: ResponseItem, code: ErrorCode, msg: Seq<char>) -> bool {
    item_is_packet(i, PacketModel::ERROR { code, msg: encode_utf8(msg) })
}

/// The item sends a DATA packet for block `block` carrying at most
/// `maxlen` bytes.
pub open spec fn item_is_data(i: ResponseItem, block: u16, maxlen: int) -> bool {
    i matches ResponseItem::Packet(p) && (p@ matches PacketModel::DATA { block_num, data }
        && block_num == block && data.len() <= maxlen)
}

/// The response is exactly an ERROR packet followed by the end of
/// the transfer.
pub open spec fn resp_is_error_done(items: Seq<ResponseItem>, code: ErrorCode, msg: Seq<char>) -> bool {
    items.len() == 2 && item_is_error(items[0], code, msg) && items[1] is Done
}

/// Some step of the response ends the transfer.
pub open spec fn contains_done(items: Seq<ResponseItem>) -> bool {
    exists|i: int| 0 <= i < items.len() && #[trigger] items[i] is Done
}

/// How many DATA packets the response sends.
pub open spec fn count_data_items(items: Seq<ResponseItem>) -> int
    decreases items.len(),
{
    if items.len() == 0 {
        0
    } else {
        count_data_items(items.drop_last()) + if items.last() matches ResponseItem::Packet(p)
            && p@ is DATA {
            1int
        } else {
            0
        }
    }
}

/// How many resend orders the response holds.
pub open spec fn count_repeat_items(items: Seq<ResponseItem>) -> int
    decreases items.len(),
{
    if items.len() == 0 {
        0
    } else {
        count_repeat_items(items.drop_last()) + if items.last() is RepeatLast {
            1int
        } else {
            0
        }
    }
}

/// Counting over an empty response.
pub proof fn lemma_count_empty()
    ensures
        count_data_items(Seq::<ResponseItem>::empty()) == 0,
        count_repeat_items(Seq::<ResponseItem>::empty()) == 0,
{
}

/// Counting steps with each appended item.
pub proof fn lemma_count_push(items: Seq<ResponseItem>, x: ResponseItem)
    ensures
        count_data_items(items.push(x)) == count_data_items(items) + (
        if x matches ResponseItem::Packet(p) && p@ is DATA {
            1int
        } else {
            0
        }),
        count_repeat_items(items.push(x)) == count_repeat_items(items) + (
        if x is RepeatLast {
            1int
        } else {
            0
        }),
{
    assert(items.push(x).drop_last() =~= items);
    assert(items.push(x).last() == x);
}

// ---------------------------------------------------------------
// The sending (read-request) transfer
// ---------------------------------------------------------------

/// Server-as-sender state: the server reads blocks from a source and
/// awaits ACKs.
#[derive(Debug)]
pub struct TransferTx<R: ReadSource> {
    /// The source blocks are read from.
    pub fread: R,
    /// Block number of the last DATA packet emitted; the one the
    /// peer should next acknowledge.
    pub expected_block: u16,
    /// Whether the final, short block has been emitted.
    pub sent_final: bool,
    pub meta: TransferMeta,
}

/// The ACK falls in the outstanding window `(expected - w, expected]`.
pub open spec fn tx_in_window(expected: u16, w: u16, ack: u16) -> bool {
    !serial_precedes(expected, ack) && !serial_precedes(serial_add(ack, w as int), expected)
}

impl<R: ReadSource> View for TransferTx<R> {
    type V = TransferSnap;

    open spec fn view(&self) -> TransferSnap {
        TransferSnap::Tx {
            expected_block: self.expected_block,
            sent_final: self.sent_final,
            meta: self.meta,
        }
    }
}

impl<R: ReadSource> TransferTx<R> {
    /// Reads one block and wraps it as the next DATA packet; a
    /// failed read becomes the ERROR packet to send instead.
    fn read_step(&mut self) -> (r: Result<Packet, Packet>)
        ensures
            final(self).meta == old(self).meta,
            r matches Ok(p) ==> (final(self).expected_block == serial_add(
                old(self).expected_block,
                1,
            ) && (p@ matches PacketModel::DATA { block_num, data } && block_num
                == final(self).expected_block && data.len() <= old(self).meta.blocksize
                && final(self).sent_final == (data.len() < old(self).meta.blocksize))),
            r matches Err(p) ==> (final(self).expected_block == old(self).expected_block
                && final(self).sent_final == old(self).sent_final && item_is_error(
                ResponseItem::Packet(p),
                ErrorCode::NotDefined,
                default_msg_view(ErrorCode::NotDefined),
            )),
    {
        let limit = self.meta.blocksize as usize;
        let v = match self.fread.read_block(limit) {
            Ok(v) => v,
            Err(_) => {
                return Err(Packet::from(ErrorCode::NotDefined));
            },
        };
        self.sent_final = v.len() < limit;
        self.expected_block = serial_add16(self.expected_block, 1);
        Ok(Packet::DATA { block_num: self.expected_block, data: v })
    }

    /// Handles an ACK: a stray one outside the window kills the
    /// transfer; one inside it slides the window forward, records
    /// how many outstanding blocks the peer skipped past, and emits
    /// fresh DATA blocks up to the window size.
    pub fn handle_ack(&mut self, ack_block: u16) -> (r: Response)
        ensures
            tx_ack_post(old(self)@, ack_block, r@, final(self)@),
    {
        let ghost e0 = self.expected_block;
        let ghost w0 = self.meta.window_size;
        if self.sent_final && ack_block == self.expected_block {
            let mut items: Vec<ResponseItem> = Vec::new();
            items.push(ResponseItem::Done);
            proof {
                assert(items@ =~= seq![ResponseItem::Done]);
                lemma_count_empty();
                lemma_count_push(Seq::<ResponseItem>::empty(), ResponseItem::Done);
                assert(items@ =~= Seq::<ResponseItem>::empty().push(ResponseItem::Done));
            }
            return Response { items };
        }
        let w = self.meta.window_size;
        if serial_gt16(ack_block, self.expected_block) || serial_lt16(
            serial_add16(ack_block, w),
            self.expected_block,
        ) {
            let mut items: Vec<ResponseItem> = Vec::new();
            items.push(
                ResponseItem::Packet(
                    Packet::ERROR {
                        code: ErrorCode::UnknownID,
                        msg: String::from_str("Incorrect block num in ACK"),
                    },
                ),
            );
            let ghost first = items@[0];
            items.push(ResponseItem::Done);
            proof {
                lemma_count_empty();
                lemma_count_push(Seq::<ResponseItem>::empty(), first);
                lemma_count_push(Seq::<ResponseItem>::empty().push(first), ResponseItem::Done);
                assert(items@ =~= Seq::<ResponseItem>::empty().push(first).push(
                    ResponseItem::Done,
                ));
            }
            return Response { items };
        }
        let window_start = serial_distance16(ack_block, self.expected_block);
        let mut v: Vec<ResponseItem> = Vec::new();
        proof {
            lemma_count_empty();
        }
        if window_start != 0 {
            v.push(ResponseItem::RepeatLast(window_start as usize));
            proof {
                lemma_count_push(
                    Seq::<ResponseItem>::empty(),
                    ResponseItem::RepeatLast(window_start as usize),
                );
                assert(v@ =~= Seq::<ResponseItem>::empty().push(
                    ResponseItem::RepeatLast(window_start as usize),
                ));
            }
        }
        self.meta.timed_out = false;
        let ghost pre: int = if window_start != 0 { 1int } else { 0 };
        let mut idx: u16 = window_start;
        while idx < w
            invariant_except_break
                idx > window_start ==> !self.sent_final,
            invariant
                w == w0,
                e0 == old(self).expected_block,
                w0 == old(self).meta.window_size,
                !(old(self).sent_final && ack_block == e0),
                tx_in_window(e0, w0, ack_block),
                window_start == serial_distance(ack_block, e0),
                window_start <= idx,
                idx <= w || idx == window_start,
                self.meta.blocksize == old(self).meta.blocksize,
                self.meta.timeout == old(self).meta.timeout,
                self.meta.window_size == w0,
                self.meta.timed_out == false,
                pre == (if window_start != 0 { 1int } else { 0 }),
                v@.len() == pre + (idx - window_start),
                window_start != 0 ==> v@[0] == ResponseItem::RepeatLast(window_start as usize),
                self.expected_block == serial_add(e0, idx - window_start),
                forall|j: int|
                    0 <= j < idx - window_start ==> item_is_data(
                        #[trigger] v@[pre + j],
                        serial_add(e0, j + 1),
                        old(self).meta.blocksize as int,
                    ),
                count_data_items(v@) == idx - window_start,
                count_repeat_items(v@) == pre,
                idx == window_start ==> self.sent_final == old(self).sent_final,
            ensures
                self.sent_final || idx >= w,
            decreases w - idx,
        {
            let ghost v_before = v@;
            match self.read_step() {
                Ok(p) => {
                    v.push(ResponseItem::Packet(p));
                    proof {
                        lemma_serial_add_chain(e0, idx - window_start, 1);
                        lemma_count_push(v_before, ResponseItem::Packet(p));
                        assert(v@ =~= v_before.push(ResponseItem::Packet(p)));
                    }
                },
                Err(p) => {
                    let mut items: Vec<ResponseItem> = Vec::new();
                    items.push(ResponseItem::Packet(p));
                    let ghost first = items@[0];
                    items.push(ResponseItem::Done);
                    proof {
                        lemma_count_empty();
                        lemma_count_push(Seq::<ResponseItem>::empty(), first);
                        lemma_count_push(
                            Seq::<ResponseItem>::empty().push(first),
                            ResponseItem::Done,
                        );
                        assert(items@ =~= Seq::<ResponseItem>::empty().push(first).push(
                            ResponseItem::Done,
                        ));
                        assert(tx_ack_step(
                            old(self)@,
                            ack_block,
                            items@,
                            self@,
                            idx - window_start,
                            true,
                        ));
                    }
                    return Response { items };
                },
            }
            idx = idx + 1;
            if self.sent_final {
                break;
            }
        }
        proof {
            let k = idx - window_start;
            let c = serial_distance(ack_block, e0);
            let avail: int = if c <= w0 { w0 - c } else { 0 };
            assert(0 <= k <= avail);
            assert(c > 0 ==> v@[0] == ResponseItem::RepeatLast(c as usize));
            assert(v@.len() == pre + k);
            assert(!(k < avail) || self.sent_final);
            assert(self.expected_block == serial_add(e0, k));
            assert(tx_ack_step(old(self)@, ack_block, v@, self@, k, false));
        }
        Response { items: v }
    }
}

/// Everything `handle_ack` promises. The reply never carries more
/// fresh DATA packets than the window size, and never more than one
/// resend order. The final ACK of a finished transfer just ends it;
/// an ACK outside the window `(expected - w, expected]` draws an
/// ERROR and ends it; an ACK inside the window advances it as
/// `tx_ack_advance` describes.
pub open spec fn tx_ack_post(
    pre_snap: TransferSnap,
    ack_block: u16,
    items: Seq<ResponseItem>,
    post_snap: TransferSnap,
) -> bool {
    let e = pre_snap->Tx_expected_block;
    let w = pre_snap->Tx_meta.window_size;
    &&& count_data_items(items) <= w
    &&& count_repeat_items(items) <= 1
    &&& ((pre_snap->Tx_sent_final && ack_block == e) ==> items =~= seq![ResponseItem::Done]
        && post_snap == pre_snap)
    &&& ((!(pre_snap->Tx_sent_final && ack_block == e) && !tx_in_window(e, w, ack_block))
        ==> resp_is_error_done(items, ErrorCode::UnknownID, "Incorrect block num in ACK"@)
        && post_snap == pre_snap)
    &&& ((!(pre_snap->Tx_sent_final && ack_block == e) && tx_in_window(e, w, ack_block))
        ==> tx_ack_advance(pre_snap, ack_block, items, post_snap))
}

/// How an in-window ACK advances a sending transfer: the peer's ACK
/// consumed `c` outstanding blocks, and `k` fresh blocks were read.
/// When every read succeeded, the reply first records the consumed
/// blocks (when `c > 0`) and then carries the `k` fresh DATA blocks,
/// numbered consecutively after the old window; when a read failed,
/// whatever had been collected is discarded and the reply is exactly
/// the ERROR and the transfer's end. The window never over-fills,
/// and stopping short of it means the final block went out or the
/// source failed.
pub open spec fn tx_ack_advance(
    pre_snap: TransferSnap,
    ack_block: u16,
    items: Seq<ResponseItem>,
    post_snap: TransferSnap,
) -> bool {
    exists|k: int, failed: bool| #[trigger] tx_ack_step(pre_snap, ack_block, items, post_snap, k, failed)
}

/// One concrete way `tx_ack_advance` is realized: `k` fresh blocks
/// were read, and `failed` says whether the source then failed.
pub open spec fn tx_ack_step(
    pre_snap: TransferSnap,
    ack_block: u16,
    items: Seq<ResponseItem>,
    post_snap: TransferSnap,
    k: int,
    failed: bool,
) -> bool {
    let e0 = pre_snap->Tx_expected_block;
    let w = pre_snap->Tx_meta.window_size;
    let bs = pre_snap->Tx_meta.blocksize;
    let c = serial_distance(ack_block, e0);
    let avail: int = if c <= w { w - c } else { 0 };
    let pre: int = if c > 0 { 1int } else { 0 };
    &&& 0 <= k <= avail
    &&& (!failed ==> (c > 0 ==> items[0] == ResponseItem::RepeatLast(c as usize)))
    &&& (!failed ==> (forall|j: int|
        0 <= j < k ==> item_is_data(#[trigger] items[pre + j], serial_add(e0, j + 1), bs as int)))
    &&& (!failed ==> items.len() == pre + k)
    &&& (failed ==> k < avail && resp_is_error_done(
        items,
        ErrorCode::NotDefined,
        default_msg_view(ErrorCode::NotDefined),
    ))
    &&& post_snap is Tx
    &&& (!failed && k < avail ==> post_snap->Tx_sent_final)
    &&& post_snap->Tx_expected_block == serial_add(e0, k)
    &&& (k == 0 ==> post_snap->Tx_sent_final == pre_snap->Tx_sent_final)
    &&& post_snap->Tx_meta.blocksize == bs
    &&& post_snap->Tx_meta.window_size == w
    &&& post_snap->Tx_meta.timeout == pre_snap->Tx_meta.timeout
    &&& post_snap->Tx_meta.timed_out == false
}

// ---------------------------------------------------------------
// The receiving (write-request) transfer
// ---------------------------------------------------------------

/// Server-as-receiver state: the server writes arriving blocks to a
/// sink and answers with ACKs at window edges.
#[derive(Debug)]
pub struct TransferRx<W: WriteSink> {
    /// The sink arriving blocks are written to.
    pub fwrite: W,
    /// Block number at the far edge of the current window: an ACK is
    /// due when this block arrives in order.
    pub expected_block: u16,
    /// The last block received in order.
    pub last_recv: u16,
    pub meta: TransferMeta,
}

impl<W: WriteSink> View for TransferRx<W> {
    type V = TransferSnap;

    open spec fn view(&self) -> TransferSnap {
        TransferSnap::Rx {
            expected_block: self.expected_block,
            last_recv: self.last_recv,
            meta: self.meta,
        }
    }
}

impl<W: WriteSink> TransferRx<W> {
    /// Handles a DATA block: out-of-window kills the transfer;
    /// out-of-sequence inside the window resets the window and
    /// re-acknowledges the last good block; the in-order block is
    /// written, and acknowledged at the window's edge or at the
    /// transfer's short final block.
    pub fn handle_data(&mut self, block: u16, data: &[u8]) -> (r: Response)
        ensures
            rx_data_outcome(old(self)@, block, data@, r@, final(self)@),
    {
        let w = self.meta.window_size;
        if serial_gt16(block, self.expected_block) || serial_lt16(
            serial_add16(block, w),
            self.expected_block,
        ) {
            let mut items: Vec<ResponseItem> = Vec::new();
            items.push(
                ResponseItem::Packet(
                    Packet::ERROR {
                        code: ErrorCode::IllegalTFTP,
                        msg: String::from_str("Data packet lost"),
                    },
                ),
            );
            items.push(ResponseItem::Done);
            return Response { items };
        }
        if serial_add16(self.last_recv, 1) != block {
            self.expected_block = serial_add16(self.last_recv, w);
            let mut items: Vec<ResponseItem> = Vec::new();
            items.push(ResponseItem::Packet(Packet::ACK(self.last_recv)));
            return Response { items };
        }
        self.meta.timed_out = false;
        self.last_recv = block;
        if self.fwrite.write_all(data).is_err() {
            let mut items: Vec<ResponseItem> = Vec::new();
            items.push(ResponseItem::Packet(Packet::from(ErrorCode::NotDefined)));
            items.push(ResponseItem::Done);
            return Response { items };
        }
        if data.len() < self.meta.blocksize as usize {
            let mut items: Vec<ResponseItem> = Vec::new();
            items.push(ResponseItem::Packet(Packet::ACK(block)));
            items.push(ResponseItem::Done);
            return Response { items };
        } else if block == self.expected_block {
            self.expected_block = serial_add16(self.expected_block, w);
            let mut items: Vec<ResponseItem> = Vec::new();
            items.push(ResponseItem::Packet(Packet::ACK(block)));
            return Response { items };
        } else {
            let items: Vec<ResponseItem> = Vec::new();
            return Response { items };
        }
    }
}

/// How a DATA block moves a receiving transfer. With window `w`,
/// last in-order block `l` and window edge `e`:
/// - outside `(l, l + w]` (checked against the edge `e`): an ERROR
///   ends the transfer and nothing is written or moved;
/// - inside the window but out of order: the window edge resets to
///   `l + w` and the reply re-acknowledges `l` alone;
/// - the in-order block `l + 1`: it is written; a failed write ends
///   the transfer with an ERROR; a short block is acknowledged and
///   ends the transfer; the block at the window edge is acknowledged
///   and slides the edge by `w`; any other block is absorbed
///   silently. Exactly one ACK is emitted in the edge, short and
///   out-of-order cases, none otherwise.
pub open spec fn rx_data_outcome(
    pre_snap: TransferSnap,
    block: u16,
    data: Seq<u8>,
    items: Seq<ResponseItem>,
    post_snap: TransferSnap,
) -> bool {
    let l = pre_snap->Rx_last_recv;
    let e = pre_snap->Rx_expected_block;
    let w = pre_snap->Rx_meta.window_size;
    let bs = pre_snap->Rx_meta.blocksize;
    let out_of_window = serial_precedes(e, block) || serial_precedes(serial_add(block, w as int), e);
    &&& post_snap is Rx
    &&& if out_of_window {
        &&& resp_is_error_done(items, ErrorCode::IllegalTFTP, "Data packet lost"@)
        &&& post_snap == pre_snap
    } else if block != serial_add(l, 1) {
        &&& items.len() == 1
        &&& item_is_packet(items[0], PacketModel::ACK { block_num: l })
        &&& post_snap->Rx_expected_block == serial_add(l, w as int)
        &&& post_snap->Rx_last_recv == l
        &&& post_snap->Rx_meta == pre_snap->Rx_meta
    } else {
        &&& post_snap->Rx_last_recv == block
        &&& post_snap->Rx_meta.blocksize == bs
        &&& post_snap->Rx_meta.window_size == w
        &&& post_snap->Rx_meta.timeout == pre_snap->Rx_meta.timeout
        &&& post_snap->Rx_meta.timed_out == false
        &&& ({
            ||| (resp_is_error_done(items, ErrorCode::NotDefined, default_msg_view(ErrorCode::NotDefined))
                && post_snap->Rx_expected_block == e)
            ||| (data.len() < bs && items.len() == 2 && item_is_packet(
                items[0],
                PacketModel::ACK { block_num: block },
            ) && items[1] is Done && post_snap->Rx_expected_block == e)
            ||| (data.len() >= bs && block == e && items.len() == 1 && item_is_packet(
                items[0],
                PacketModel::ACK { block_num: block },
            ) && post_snap->Rx_expected_block == serial_add(e, w as int))
            ||| (data.len() >= bs && block != e && items.len() == 0 && post_snap->Rx_expected_block
                == e)
        })
    }
}

// ---------------------------------------------------------------
// The transfer, as the dispatcher sees it
// ---------------------------------------------------------------

/// The state of an ongoing transfer with one client.
pub enum Transfer<IO: IOAdapter> {
    Rx(TransferRx<IO::W>),
    Tx(TransferTx<IO::R>),
    Complete,
}

/// The observable part of a transfer: its counters and negotiated
/// shape, without the reader or writer it owns.
#[derive(PartialEq, Eq, Structural, Clone, Copy, Debug)]
pub enum TransferSnap {
    Rx { expected_block: u16, last_recv: u16, meta: TransferMeta },
    Tx { expected_block: u16, sent_final: bool, meta: TransferMeta },
    Complete,
}

impl<IO: IOAdapter> View for Transfer<IO> {
    type V = TransferSnap;

    open spec fn view(&self) -> TransferSnap {
        match self {
            Transfer::Rx(rx) => rx@,
            Transfer::Tx(tx) => tx@,
            Transfer::Complete => TransferSnap::Complete,
        }
    }
}

/// What one timer expiry does to a transfer: a completed or
/// already-timed-out transfer ends; otherwise the expiry is recorded
/// and the sender re-sends its whole outstanding window, while the
/// receiver re-sends its last ACK (as a resend order when the window
/// holds a single block, else as a fresh ACK that also resets the
/// window's edge).
pub open spec fn spec_timeout_step(s: TransferSnap) -> (TransferSnap, ResponseItem) {
    match s {
        TransferSnap::Rx { expected_block, last_recv, meta } => {
            if meta.timed_out {
                (TransferSnap::Complete, ResponseItem::Done)
            } else {
                let meta2 = TransferMeta {
                    blocksize: meta.blocksize,
                    timeout: meta.timeout,
                    timed_out: true,
                    window_size: meta.window_size,
                };
                if serial_add(last_recv, 1) == expected_block {
                    (
                        TransferSnap::Rx { expected_block, last_recv, meta: meta2 },
                        ResponseItem::RepeatLast(1),
                    )
                } else {
                    (
                        TransferSnap::Rx {
                            expected_block: serial_add(last_recv, meta.window_size as int),
                            last_recv,
                            meta: meta2,
                        },
                        ResponseItem::Packet(Packet::ACK(last_recv)),
                    )
                }
            }
        },
        TransferSnap::Tx { expected_block, sent_final, meta } => {
            if meta.timed_out {
                (TransferSnap::Complete, ResponseItem::Done)
            } else {
                let meta2 = TransferMeta {
                    blocksize: meta.blocksize,
                    timeout: meta.timeout,
                    timed_out: true,
                    window_size: meta.window_size,
                };
                (
                    TransferSnap::Tx { expected_block, sent_final, meta: meta2 },
                    ResponseItem::RepeatLast(meta.window_size as usize),
                )
            }
        },
        TransferSnap::Complete => (TransferSnap::Complete, ResponseItem::Done),
    }
}

/// The timeout a transfer asks for, in seconds: the one its client
/// negotiated, if the transfer still runs and one was negotiated.
pub open spec fn spec_timeout_of(s: TransferSnap) -> Option<u64> {
    match s {
        TransferSnap::Rx { meta, .. } => match meta.timeout {
            Some(t) => Some(t as u64),
            None => None,
        },
        TransferSnap::Tx { meta, .. } => match meta.timeout {
            Some(t) => Some(t as u64),
            None => None,
        },
        TransferSnap::Complete => None,
    }
}

/// Idempotent retransmission: on a live transfer that has not yet
/// timed out, a first expiry retransmits (the sender's whole window;
/// the receiver's last ACK, one way or the other) and a second
/// expiry with no packet in between ends the transfer for good.
pub proof fn lemma_timeout_idempotent_retransmission(s: TransferSnap)
    requires
        !(s is Complete),
        !(s->Rx_meta.timed_out && s is Rx),
        !(s->Tx_meta.timed_out && s is Tx),
    ensures
        ({
            let (s1, r1) = spec_timeout_step(s);
            let (s2, r2) = spec_timeout_step(s1);
            &&& !(r1 is Done)
            &&& (s is Tx ==> r1 == ResponseItem::RepeatLast(s->Tx_meta.window_size as usize))
            &&& r2 == ResponseItem::Done
            &&& s2 is Complete
        }),
{
}

/// How one received packet moves a transfer: what `Transfer::rx`
/// replies and where the transfer stands afterwards, phrased over
/// the reply items and the transfer snapshots. A completed transfer
/// answers with its end alone; an ERROR ends it silently; a packet
/// of the wrong direction draws the wrong-direction rebuke and ends
/// it; an ACK on a sender and a DATA block on a receiver move the
/// window as `tx_ack_post` and `rx_data_outcome` describe, the
/// transfer completing exactly when the reply holds its end.
pub open spec fn transfer_rx_post(
    pre_v: TransferSnap,
    m: PacketModel,
    items: Seq<ResponseItem>,
    post_v: TransferSnap,
) -> bool {
    &&& (pre_v is Complete ==> items =~= seq![ResponseItem::Done] && post_v is Complete)
    &&& (!(pre_v is Complete) && m is ERROR ==> items =~= seq![ResponseItem::Done] && post_v
        is Complete)
    &&& ((pre_v is Rx && m is ACK) || (pre_v is Tx && m is DATA) ==> resp_is_error_done(
        items,
        ErrorCode::IllegalTFTP,
        default_msg_view(ErrorCode::IllegalTFTP),
    ) && post_v is Complete)
    &&& (if pre_v is Tx {
        m matches PacketModel::ACK { block_num } ==> ((!contains_done(items) ==> tx_ack_post(
            pre_v,
            block_num,
            items,
            post_v,
        )) && (contains_done(items) ==> post_v is Complete && exists|mid: TransferSnap|
            #[trigger] tx_ack_post(pre_v, block_num, items, mid)))
    } else {
        true
    })
    &&& (if pre_v is Rx {
        m matches PacketModel::DATA { block_num, data } ==> ((!contains_done(items)
            ==> rx_data_outcome(pre_v, block_num, data, items, post_v)) && (contains_done(items)
            ==> post_v is Complete && exists|mid: TransferSnap|
            #[trigger] rx_data_outcome(pre_v, block_num, data, items, mid)))
    } else {
        true
    })
}

/// How `Transfer::rx` answers an ACK when the transfer is a sender:
/// as `tx_ack_post` describes, and the transfer completes exactly
/// when the reply holds its end.
pub open spec fn rx_ack_case(
    pre_v: TransferSnap,
    packet_v: PacketModel,
    r: Result<Response, TftpError>,
    post_v: TransferSnap,
) -> bool {
    if pre_v is Tx {
        packet_v matches PacketModel::ACK { block_num } ==> (r matches Ok(resp) && (!contains_done(
            resp@,
        ) ==> tx_ack_post(pre_v, block_num, resp@, post_v)) && (contains_done(resp@) ==> post_v
            is Complete && exists|mid: TransferSnap|
            #[trigger] tx_ack_post(pre_v, block_num, resp@, mid)))
    } else {
        true
    }
}

/// How `Transfer::rx` answers a DATA block when the transfer is a
/// receiver: as `rx_data_outcome` describes, and the transfer
/// completes exactly when the reply holds its end.
pub open spec fn rx_data_case(
    pre_v: TransferSnap,
    packet_v: PacketModel,
    r: Result<Response, TftpError>,
    post_v: TransferSnap,
) -> bool {
    if pre_v is Rx {
        packet_v matches PacketModel::DATA { block_num, data } ==> (r matches Ok(resp) && (
        !contains_done(resp@) ==> rx_data_outcome(pre_v, block_num, data, resp@, post_v)) && (
        contains_done(resp@) ==> post_v is Complete && exists|mid: TransferSnap|
            #[trigger] rx_data_outcome(pre_v, block_num, data, resp@, mid)))
    } else {
        true
    }
}

/// Builds the single-step reply that just ends the transfer.
fn done_response() -> (r: Response)
    ensures
        r@ =~= seq![ResponseItem::Done],
{
    let mut items: Vec<ResponseItem> = Vec::new();
    items.push(ResponseItem::Done);
    proof {
        assert(items@ =~= seq![ResponseItem::Done]);
    }
    Response { items }
}

/// Builds the wrong-direction reply: an ERROR that ends the
/// transfer.
fn illegal_response() -> (r: Response)
    ensures
        resp_is_error_done(
            r@,
            ErrorCode::IllegalTFTP,
            default_msg_view(ErrorCode::IllegalTFTP),
        ),
{
    let mut items: Vec<ResponseItem> = Vec::new();
    items.push(ResponseItem::Packet(Packet::from(ErrorCode::IllegalTFTP)));
    items.push(ResponseItem::Done);
    Response { items }
}

/// Whether some step of the reply ends the transfer.
fn resp_has_done(resp: &Response) -> (r: bool)
    ensures
        r == contains_done(resp@),
{
    let n = resp.items.len();
    let mut i: usize = 0;
    while i < n
        invariant
            n == resp@.len(),
            i <= n,
            forall|j: int| 0 <= j < i ==> !(#[trigger] resp@[j] is Done),
        decreases n - i,
    {
        if matches!(resp.items[i], ResponseItem::Done) {
            assert(resp@[i as int] is Done);
            return true;
        }
        i += 1;
    }
    false
}

impl<IO: IOAdapter> Transfer<IO> {
    /// Checks to see if the transfer has completed.
    pub fn is_done(&self) -> (r: bool)
        ensures
            r == (self@ is Complete),
    {
        match self {
            Transfer::Complete => true,
            _ => false,
        }
    }

    /// Call this to indicate that the timeout since the last
    /// received packet has expired. This may return a packet to
    /// (re)send or may terminate the transfer.
    pub fn timeout_expired(&mut self) -> (r: ResponseItem)
        ensures
            final(self)@ == spec_timeout_step(old(self)@).0,
            r == spec_timeout_step(old(self)@).1,
    {
        let result = match self {
            Transfer::Rx(rx) => {
                if rx.meta.timed_out {
                    ResponseItem::Done
                } else {
                    rx.meta.timed_out = true;
                    if serial_add16(rx.last_recv, 1) == rx.expected_block {
                        ResponseItem::RepeatLast(1)
                    } else {
                        rx.expected_block = serial_add16(rx.last_recv, rx.meta.window_size);
                        ResponseItem::Packet(Packet::ACK(rx.last_recv))
                    }
                }
            },
            Transfer::Tx(tx) => {
                if tx.meta.timed_out {
                    ResponseItem::Done
                } else {
                    tx.meta.timed_out = true;
                    ResponseItem::RepeatLast(tx.meta.window_size as usize)
                }
            },
            Transfer::Complete => ResponseItem::Done,
        };
        if matches!(result, ResponseItem::Done) {
            *self = Transfer::Complete;
        }
        result
    }

    /// Returns the timeout negotiated via option for this transfer,
    /// in seconds, or nothing if the server default should be used.
    pub fn timeout(&self) -> (r: Option<u64>)
        ensures
            r == spec_timeout_of(self@),
    {
        match self {
            Transfer::Rx(rx) => match rx.meta.timeout {
                Some(t) => Some(t as u64),
                None => None,
            },
            Transfer::Tx(tx) => match tx.meta.timeout {
                Some(t) => Some(t as u64),
                None => None,
            },
            Transfer::Complete => None,
        }
    }

    /// Process and consume a received packet. Once the first reply
    /// holding the transfer's end is returned, the transfer is
    /// complete and every later call returns that end alone.
    #[verifier::rlimit(80)]
    #[verifier::spinoff_prover]
    pub fn rx(&mut self, packet: Packet) -> (r: Result<Response, TftpError>)
        ensures
            old(self)@ is Complete ==> (r matches Ok(resp) && resp@ =~= seq![ResponseItem::Done]
                && final(self)@ is Complete),
            (!(old(self)@ is Complete) && (packet@ is RRQ || packet@ is WRQ || packet@ is OACK))
                ==> r == Err::<Response, TftpError>(TftpError::TransferAlreadyRunning)
                && *final(self) == *old(self),
            (!(old(self)@ is Complete) && packet@ is ERROR) ==> (r matches Ok(resp) && resp@
                =~= seq![ResponseItem::Done] && final(self)@ is Complete),
            (old(self)@ is Rx && packet@ is ACK) || (old(self)@ is Tx && packet@ is DATA) ==> (
            r matches Ok(resp) && resp_is_error_done(
                resp@,
                ErrorCode::IllegalTFTP,
                default_msg_view(ErrorCode::IllegalTFTP),
            ) && final(self)@ is Complete),
            rx_ack_case(old(self)@, packet@, r, final(self)@),
            rx_data_case(old(self)@, packet@, r, final(self)@),
            r matches Ok(resp) ==> transfer_rx_post(old(self)@, packet@, resp@, final(self)@),
    {
        if self.is_done() {
            let rsp = done_response();
            proof {
                assert(rx_ack_case(old(self)@, packet@, Ok::<Response, TftpError>(rsp), self@));
                assert(rx_data_case(old(self)@, packet@, Ok::<Response, TftpError>(rsp), self@));
                assert(transfer_rx_post(old(self)@, packet@, rsp@, self@));
            }
            return Ok(rsp);
        }
        match packet {
            Packet::ACK(ack_block) => match self {
                Transfer::Tx(tx) => {
                    let ghost t1 = tx@;
                    let resp = tx.handle_ack(ack_block);
                    let ghost t2 = tx@;
                    if resp_has_done(&resp) {
                        *self = Transfer::Complete;
                    }
                    proof {
                        assert(tx_ack_post(t1, ack_block, resp@, t2));
                        assert(old(self)@ == t1);
                        assert(old(self)@ is Tx);
                        assert(packet@ matches PacketModel::ACK { block_num } && block_num
                            == ack_block);
                        assert(contains_done(resp@) ==> self@ is Complete);
                        assert(!contains_done(resp@) ==> self@ == t2);
                        assert(contains_done(resp@) ==> (exists|mid: TransferSnap|
                            #[trigger] tx_ack_post(old(self)@, ack_block, resp@, mid)));
                        assert(rx_ack_case(old(self)@, packet@, Ok::<Response, TftpError>(resp), self@));
                        assert(rx_data_case(old(self)@, packet@, Ok::<Response, TftpError>(resp), self@));
                        assert(transfer_rx_post(old(self)@, packet@, resp@, self@));
                    }
                    Ok(resp)
                },
                _ => {
                    *self = Transfer::Complete;
                    let rsp = illegal_response();
                    proof {
                        assert(rx_ack_case(old(self)@, packet@, Ok::<Response, TftpError>(rsp), self@));
                        assert(rx_data_case(old(self)@, packet@, Ok::<Response, TftpError>(rsp), self@));
                        assert(transfer_rx_post(old(self)@, packet@, rsp@, self@));
                    }
                    Ok(rsp)
                },
            },
            Packet::DATA { block_num, data } => match self {
                Transfer::Rx(rx) => {
                    let ghost r1 = rx@;
                    let resp = rx.handle_data(block_num, data.as_slice());
                    let ghost r2 = rx@;
                    if resp_has_done(&resp) {
                        *self = Transfer::Complete;
                    }
                    proof {
                        assert(rx_data_outcome(r1, block_num, data@, resp@, r2));
                        assert(old(self)@ == r1);
                        assert(old(self)@ is Rx);
                        assert(packet@ matches PacketModel::DATA { block_num: b2, data: d2 } && b2
                            == block_num && d2 == data@);
                        assert(contains_done(resp@) ==> self@ is Complete);
                        assert(!contains_done(resp@) ==> self@ == r2);
                        assert(contains_done(resp@) ==> (exists|mid: TransferSnap|
                            #[trigger] rx_data_outcome(old(self)@, block_num, data@, resp@, mid)));
                        assert(rx_ack_case(old(self)@, packet@, Ok::<Response, TftpError>(resp), self@));
                        assert(rx_data_case(old(self)@, packet@, Ok::<Response, TftpError>(resp), self@));
                        assert(transfer_rx_post(old(self)@, packet@, resp@, self@));
                    }
                    Ok(resp)
                },
                _ => {
                    *self = Transfer::Complete;
                    let rsp = illegal_response();
                    proof {
                        assert(rx_ack_case(old(self)@, packet@, Ok::<Response, TftpError>(rsp), self@));
                        assert(rx_data_case(old(self)@, packet@, Ok::<Response, TftpError>(rsp), self@));
                        assert(transfer_rx_post(old(self)@, packet@, rsp@, self@));
                    }
                    Ok(rsp)
                },
            },
            Packet::ERROR { .. } => {
                *self = Transfer::Complete;
                let rsp = done_response();
                proof {
                    assert(rx_ack_case(old(self)@, packet@, Ok::<Response, TftpError>(rsp), self@));
                    assert(rx_data_case(old(self)@, packet@, Ok::<Response, TftpError>(rsp), self@));
                    assert(transfer_rx_post(old(self)@, packet@, rsp@, self@));
                }
                Ok(rsp)
            },
            _ => {
                proof {
                    assert(rx_ack_case(old(self)@, packet@, Err::<Response, TftpError>(TftpError::TransferAlreadyRunning), self@));
                    assert(rx_data_case(old(self)@, packet@, Err::<Response, TftpError>(TftpError::TransferAlreadyRunning), self@));
                }
                Err(TftpError::TransferAlreadyRunning)
            },
        }
    }
}

// ---------------------------------------------------------------
// Option negotiation and the initial request
// ---------------------------------------------------------------

/// The transfer shape the request's options negotiate, applied in
/// arrival order over the defaults.
pub open spec fn negotiated_meta(opts: Seq<TftpOption>) -> TransferMeta
    decreases opts.len(),
{
    if opts.len() == 0 {
        default_meta()
    } else {
        let m = negotiated_meta(opts.drop_last());
        match opts.last() {
            TftpOption::Blocksize(s) => TransferMeta {
                blocksize: s,
                timeout: m.timeout,
                timed_out: m.timed_out,
                window_size: m.window_size,
            },
            TftpOption::Timeout(t) => TransferMeta {
                blocksize: m.blocksize,
                timeout: Some(t),
                timed_out: m.timed_out,
                window_size: m.window_size,
            },
            TftpOption::TransferSize(_) => m,
            TftpOption::WindowSize(s) => TransferMeta {
                blocksize: m.blocksize,
                timeout: m.timeout,
                timed_out: m.timed_out,
                window_size: s,
            },
        }
    }
}

/// The options echoed back to the client, in arrival order: all of
/// them, except that a read takes the transfer-size option out (its
/// value must be replaced by the file's length before any echo).
pub open spec fn kept_options(opts: Seq<TftpOption>, is_write: bool) -> Seq<TftpOption>
    decreases opts.len(),
{
    if opts.len() == 0 {
        Seq::empty()
    } else {
        kept_options(opts.drop_last(), is_write) + (
        if opts.last() is TransferSize && !is_write {
            Seq::empty()
        } else {
            seq![opts.last()]
        })
    }
}

/// The transfer size the client asked about, if any: the last
/// transfer-size option wins.
pub open spec fn requested_tsize(opts: Seq<TftpOption>) -> Option<u64>
    decreases opts.len(),
{
    if opts.len() == 0 {
        None
    } else {
        match opts.last() {
            TftpOption::TransferSize(s) => Some(s),
            _ => requested_tsize(opts.drop_last()),
        }
    }
}

/// Applies the request's options in arrival order: builds the
/// negotiated shape, the list to echo back, and the transfer size
/// the client asked about.
fn negotiate(options: &Vec<TftpOption>, is_write: bool) -> (r: (
    TransferMeta,
    Vec<TftpOption>,
    Option<u64>,
))
    ensures
        r.0 == negotiated_meta(options@),
        r.1@ == kept_options(options@, is_write),
        r.2 == requested_tsize(options@),
{
    let mut meta = TransferMeta { blocksize: 512, timeout: None, timed_out: false, window_size: 1 };
    let mut kept: Vec<TftpOption> = Vec::new();
    let mut tsize: Option<u64> = None;
    let n = options.len();
    let mut i: usize = 0;
    while i < n
        invariant
            n == options@.len(),
            i <= n,
            meta == negotiated_meta(options@.take(i as int)),
            kept@ =~= kept_options(options@.take(i as int), is_write),
            tsize == requested_tsize(options@.take(i as int)),
        decreases n - i,
    {
        let opt = options[i];
        proof {
            assert(options@.take(i + 1).drop_last() =~= options@.take(i as int));
            assert(options@.take(i + 1).last() == options@[i as int]);
        }
        match opt {
            TftpOption::Blocksize(s) => {
                meta.blocksize = s;
                kept.push(opt);
            },
            TftpOption::Timeout(t) => {
                meta.timeout = Some(t);
                kept.push(opt);
            },
            TftpOption::TransferSize(s) => {
                tsize = Some(s);
                if is_write {
                    kept.push(opt);
                }
            },
            TftpOption::WindowSize(s) => {
                meta.window_size = s;
                kept.push(opt);
            },
        }
        i += 1;
    }
    proof {
        assert(options@.take(n as int) =~= options@);
    }
    (meta, kept, tsize)
}

/// The reply is the ERROR packet carrying `code` and its default
/// message.
pub open spec fn is_error_reply(r: Result<Packet, TftpError>, code: ErrorCode) -> bool {
    r matches Ok(p) && p@ == (PacketModel::ERROR { code, msg: encode_utf8(default_msg_view(code)) })
}

/// The filename, mode and options of a read or write request.
pub open spec fn req_parts(p: PacketModel) -> (Seq<u8>, TransferMode, Seq<TftpOption>) {
    match p {
        PacketModel::RRQ { filename, mode, options } => (filename, mode, options),
        PacketModel::WRQ { filename, mode, options } => (filename, mode, options),
        _ => (Seq::empty(), TransferMode::Octet, Seq::empty()),
    }
}

/// What accepting a write request looks like: either the create
/// failed and the client sees FileExists, or a receiving transfer
/// starts with the negotiated shape and the reply acknowledges block
/// zero (or the echoed options, when any survived).
pub open spec fn wrq_accept_case<IO: IOAdapter>(
    opts: Seq<TftpOption>,
    xfer: Option<Transfer<IO>>,
    reply: Result<Packet, TftpError>,
) -> bool {
    let meta = negotiated_meta(opts);
    let kept = kept_options(opts, true);
    ||| (xfer is None && is_error_reply(reply, ErrorCode::FileExists))
    ||| (xfer matches Some(t) && (t@ == (TransferSnap::Rx {
        expected_block: meta.window_size,
        last_recv: 0,
        meta,
    }) && (reply matches Ok(p) && ((kept.len() == 0 ==> p@ == (PacketModel::ACK {
        block_num: 0,
    })) && (kept.len() > 0 ==> p@ == (PacketModel::OACK { options: kept }))))))
}

/// What accepting a read request looks like: the open can fail
/// (FileNotFound); with no options to echo the first data block goes
/// out at once (or its read fails and the client sees an ERROR);
/// with options to echo — possibly extended by the file's size when
/// the client asked for it — the reply is an OACK and the transfer
/// waits at block zero.
pub open spec fn rrq_accept_case<IO: IOAdapter>(
    opts: Seq<TftpOption>,
    xfer: Option<Transfer<IO>>,
    reply: Result<Packet, TftpError>,
) -> bool {
    let meta = negotiated_meta(opts);
    let kept = kept_options(opts, false);
    ||| (xfer is None && is_error_reply(reply, ErrorCode::FileNotFound))
    ||| (xfer is None && is_error_reply(reply, ErrorCode::NotDefined) && kept.len() == 0)
    ||| exists|echoed: Seq<TftpOption>|
        #[trigger] rrq_echo(opts, echoed) && rrq_started(meta, echoed, xfer, reply)
}

/// The echoed option list of a read: the kept options, plus one
/// transfer-size option at the end when the client asked for the
/// size and the file's length was known.
pub open spec fn rrq_echo(opts: Seq<TftpOption>, echoed: Seq<TftpOption>) -> bool {
    let kept = kept_options(opts, false);
    ||| echoed == kept
    ||| (requested_tsize(opts) is Some && exists|n: u64|
        echoed == kept + seq![TftpOption::TransferSize(n)])
}

/// A read transfer that started: an OACK echoes the surviving
/// options, or, with none to echo, the first DATA block is already
/// on its way.
pub open spec fn rrq_started<IO: IOAdapter>(
    meta: TransferMeta,
    echoed: Seq<TftpOption>,
    xfer: Option<Transfer<IO>>,
    reply: Result<Packet, TftpError>,
) -> bool {
    if echoed.len() > 0 {
        &&& xfer matches Some(t) && t@ == (TransferSnap::Tx {
            expected_block: 0,
            sent_final: false,
            meta,
        })
        &&& reply matches Ok(p) && p@ == (PacketModel::OACK { options: echoed })
    } else {
        &&& xfer matches Some(t) && (t@ matches TransferSnap::Tx {
            expected_block: e,
            sent_final: sf,
            meta: m2,
        } && e == serial_add(0, 1) && m2 == meta && (reply matches Ok(p) && (
        p@ matches PacketModel::DATA { block_num, data } && block_num == e && data.len()
            <= meta.blocksize && sf == (data.len() < meta.blocksize))))
    }
}

/// The TFTP protocol and filesystem usage implementation, used as
/// backend for a TFTP server.
pub struct TftpServerProto<IO: IOAdapter> {
    io_proxy: IOPolicyProxy<IO>,
}

impl<IO: IOAdapter> TftpServerProto<IO> {
    /// Whether the policy refuses every write.
    pub closed spec fn spec_readonly(&self) -> bool {
        self.io_proxy.policy.readonly
    }

    /// Creates a new instance with the provided `IOAdapter` and
    /// policy.
    pub fn new(io: IO, cfg: IOPolicyCfg) -> (r: Self)
        ensures
            r.spec_readonly() == cfg.readonly,
    {
        Self { io_proxy: IOPolicyProxy::new(io, cfg) }
    }

    fn new_write(fwrite: IO::W, meta: TransferMeta, options: Vec<TftpOption>) -> (r: (
        Option<Transfer<IO>>,
        Packet,
    ))
        ensures
            r.0 matches Some(t) && t@ == (TransferSnap::Rx {
                expected_block: meta.window_size,
                last_recv: 0,
                meta,
            }),
            options@.len() == 0 ==> r.1@ == (PacketModel::ACK { block_num: 0 }),
            options@.len() > 0 ==> r.1@ == (PacketModel::OACK { options: options@ }),
    {
        let xfer = TransferRx { fwrite, expected_block: meta.window_size, last_recv: 0, meta };
        let packet = if options.len() == 0 {
            Packet::ACK(0)
        } else {
            Packet::OACK { options }
        };
        (Some(Transfer::Rx(xfer)), packet)
    }

    fn new_read(fread: IO::R, meta: TransferMeta, options: Vec<TftpOption>) -> (r: (
        Option<Transfer<IO>>,
        Packet,
    ))
        ensures
            rrq_started(meta, options@, r.0, Ok::<Packet, TftpError>(r.1)) || (options@.len() == 0
                && r.0 is None && is_error_reply(
                Ok::<Packet, TftpError>(r.1),
                ErrorCode::NotDefined,
            )),
    {
        let mut xfer = TransferTx { fread, expected_block: 0, sent_final: false, meta };
        if options.len() == 0 {
            match xfer.read_step() {
                Ok(p) => (Some(Transfer::Tx(xfer)), p),
                Err(p) => (None, p),
            }
        } else {
            (Some(Transfer::Tx(xfer)), Packet::OACK { options })
        }
    }

    /// Signals the receipt of a transfer-initiating packet (either
    /// RRQ or WRQ). If a `Transfer` is returned in the first tuple
    /// member, it must be used to handle all future packets from the
    /// same client via `Transfer::rx`; if none is returned, no
    /// transfer starts. In both cases the packet in the `Result` is
    /// the reply to send back to the client.
    #[verifier::rlimit(60)]
    pub fn rx_initial(&mut self, packet: Packet) -> (r: (
        Option<Transfer<IO>>,
        Result<Packet, TftpError>,
    ))
        ensures
            final(self).spec_readonly() == old(self).spec_readonly(),
            !(packet@ is RRQ || packet@ is WRQ) ==> r.0 is None && r.1 == Err::<
                Packet,
                TftpError,
            >(TftpError::NotInitiatingPacket) && *final(self) == *old(self),
            (packet@ is RRQ || packet@ is WRQ) && req_parts(packet@).1 is Mail ==> r.0 is None
                && is_error_reply(r.1, ErrorCode::NoUser),
            (packet@ is RRQ || packet@ is WRQ) && req_parts(packet@).1 is Netascii ==> r.0 is None
                && is_error_reply(r.1, ErrorCode::NotDefined),
            (packet@ is WRQ && req_parts(packet@).1 is Octet && (path_refused(req_parts(packet@).0)
                || old(self).spec_readonly())) ==> r.0 is None && is_error_reply(
                r.1,
                ErrorCode::FileExists,
            ),
            (packet@ is RRQ && req_parts(packet@).1 is Octet && path_refused(req_parts(packet@).0))
                ==> r.0 is None && is_error_reply(r.1, ErrorCode::FileNotFound),
            (packet@ is WRQ && req_parts(packet@).1 is Octet) ==> wrq_accept_case(
                req_parts(packet@).2,
                r.0,
                r.1,
            ),
            (packet@ is RRQ && req_parts(packet@).1 is Octet) ==> rrq_accept_case(
                req_parts(packet@).2,
                r.0,
                r.1,
            ),
    {
        let (filename, mode, options, is_write) = match packet {
            Packet::RRQ { filename, mode, options } => (filename, mode, options, false),
            Packet::WRQ { filename, mode, options } => (filename, mode, options, true),
            _ => {
                return (None, Err(TftpError::NotInitiatingPacket));
            },
        };
        match mode {
            TransferMode::Octet => {},
            TransferMode::Mail => {
                return (None, Ok(Packet::from(ErrorCode::NoUser)));
            },
            TransferMode::Netascii => {
                return (None, Ok(Packet::from(ErrorCode::NotDefined)));
            },
        }
        let (meta, kept, transfer_size) = negotiate(&options, is_write);
        if is_write {
            let fwrite = match self.io_proxy.create_new(filename.as_str(), transfer_size) {
                Ok(f) => f,
                Err(_) => {
                    return (None, Ok(Packet::from(ErrorCode::FileExists)));
                },
            };
            let (xfer, p) = Self::new_write(fwrite, meta, kept);
            proof {
                assert(wrq_accept_case(options@, xfer, Ok::<Packet, TftpError>(p)));
            }
            (xfer, Ok(p))
        } else {
            let (fread, len) = match self.io_proxy.open_read(filename.as_str()) {
                Ok(f) => f,
                Err(_) => {
                    return (None, Ok(Packet::from(ErrorCode::FileNotFound)));
                },
            };
            let mut echoed = kept;
            let ghost kept0 = echoed@;
            if transfer_size.is_some() {
                match len {
                    Some(file_size) => {
                        echoed.push(TftpOption::TransferSize(file_size));
                        proof {
                            assert(echoed@ =~= kept0 + seq![TftpOption::TransferSize(
                                len->Some_0,
                            )]);
                        }
                    },
                    None => {},
                }
            }
            proof {
                assert(rrq_echo(options@, echoed@));
            }
            let (xfer, p) = Self::new_read(fread, meta, echoed);
            proof {
                assert(rrq_accept_case(options@, xfer, Ok::<Packet, TftpError>(p)));
            }
            (xfer, Ok(p))
        }
    }
}

} // verus!

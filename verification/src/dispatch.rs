//! The dispatcher's bookkeeping: the token namespace, the table of
//! live connections with the datagrams they last sent, and the pure
//! decisions behind each socket or timer event. The binary that owns
//! the sockets receives datagrams, hands them here as bytes, and
//! performs the sends, registrations and timer resets these
//! decisions call for.

use vstd::prelude::*;
use crate::options::TftpOption;
use crate::packet::{ErrorCode, Packet};
use crate::policy::{path_refused, IOAdapter, IOPolicyCfg};
use crate::proto::{
    kept_options, negotiated_meta, req_parts, rrq_echo, spec_timeout_step, transfer_rx_post,
    Response, ResponseItem, TftpServerProto, Transfer,
};
use crate::wire::clone_bytes;

verus! {

/// A peer's address as plain values; the binary converts socket
/// addresses to and from this form.
#[derive(PartialEq, Eq, Structural, Clone, Copy, Debug)]
pub struct PeerAddr {
    /// The IP address packed into an integer (4 bytes used for an
    /// IPv4 peer, 16 for IPv6).
    pub ip: u128,
    /// The UDP port.
    pub port: u16,
    /// Which address family `ip` belongs to.
    pub is_ipv6: bool,
}

/// The state of one live connection, as far as the decisions reach:
/// its transfer, the datagrams sent last (kept for resends), and the
/// peer the transfer belongs to. The binary keeps the socket and the
/// timer handle beside it, under the same token.
pub struct ConnectionState<IO: IOAdapter> {
    /// The protocol state of this transfer.
    pub transfer: Transfer<IO>,
    /// The datagrams sent last, oldest first.
    pub last_packets: Vec<Vec<u8>>,
    /// The address of the client socket to reply to.
    pub remote: PeerAddr,
}

/// What to do about a datagram that arrived on a listening socket.
pub enum InitialOutcome {
    /// Nothing: the datagram was malformed or could not initiate a
    /// transfer.
    Ignore,
    /// Send `reply` to the peer from a fresh socket bound beside the
    /// listening one. When `conn_token` is set, a connection now
    /// runs under that token: register the socket under it and start
    /// its idle timer at `timeout_secs`.
    Reply { reply: Vec<u8>, conn_token: Option<u64>, timeout_secs: u64 },
}

/// What to do about a datagram that arrived on a connection's
/// socket. The idle timer of a known connection is reset either way.
pub struct ConnOutcome {
    /// The token named a live connection.
    pub known: bool,
    /// Datagrams to send to the connection's peer, in order.
    pub sends: Vec<Vec<u8>>,
    /// A reply owed to the datagram's sender instead, when it was a
    /// stray peer; the connection itself goes on undisturbed.
    pub stray_reply: Option<Vec<u8>>,
}

/// What to do when a connection's idle timer expired.
pub struct TimerOutcome {
    /// The token named a live connection.
    pub known: bool,
    /// Datagrams to send to the connection's peer, in order.
    pub sends: Vec<Vec<u8>>,
    /// The connection ended and is gone: deregister its socket and
    /// cancel its timer instead of resetting it.
    pub closed: bool,
    /// When not closed: seconds until the next idle expiry.
    pub timeout_secs: u64,
}

/// The encoding of the ERROR packet that carries `code` and its
/// default message.
pub open spec fn spec_error_bytes(code: ErrorCode) -> Seq<u8> {
    crate::packet::spec_encode(
        crate::packet::PacketModel::ERROR {
            code,
            msg: vstd::utf8::encode_utf8(crate::packet::default_msg_view(code)),
        },
    )
}

/// The reply bytes a write request draws, and whether a connection
/// was installed: the create failed and the client sees FileExists
/// with no connection, or a connection started and block zero is
/// acknowledged (as an OACK when options survived).
pub open spec fn wrq_accept_bytes(opts: Seq<TftpOption>, conn_some: bool, reply: Seq<u8>) -> bool {
    let kept = kept_options(opts, true);
    ||| (!conn_some && reply == spec_error_bytes(ErrorCode::FileExists))
    ||| (conn_some && (kept.len() == 0 ==> reply == crate::packet::spec_encode(
        crate::packet::PacketModel::ACK { block_num: 0 },
    )) && (kept.len() > 0 ==> reply == crate::packet::spec_encode(
        crate::packet::PacketModel::OACK { options: kept },
    )))
}

/// The reply bytes a read request draws, and whether a connection
/// was installed: the open failed (FileNotFound), the first read
/// failed with nothing to echo (NotDefined), or a connection started
/// with an OACK of the echoed options or the first DATA block.
pub open spec fn rrq_accept_bytes(opts: Seq<TftpOption>, conn_some: bool, reply: Seq<u8>) -> bool {
    let meta = negotiated_meta(opts);
    let kept = kept_options(opts, false);
    ||| (!conn_some && reply == spec_error_bytes(ErrorCode::FileNotFound))
    ||| (!conn_some && reply == spec_error_bytes(ErrorCode::NotDefined) && kept.len() == 0)
    ||| (conn_some && exists|echoed: Seq<TftpOption>|
        #[trigger] rrq_echo(opts, echoed) && ({
            ||| (echoed.len() > 0 && reply == crate::packet::spec_encode(
                crate::packet::PacketModel::OACK { options: echoed },
            ))
            ||| (echoed.len() == 0 && exists|d: Seq<u8>|
                d.len() <= meta.blocksize && reply == crate::packet::spec_encode(
                    crate::packet::PacketModel::DATA { block_num: 1, data: d },
                ))
        }))
}

/// What a datagram on a listening socket draws on the wire: nothing
/// for bytes that decode badly or to no request; a request always
/// draws a reply — the right refusal, with no connection made, for a
/// bad mode, a refused path, or a write on a read-only server, and
/// otherwise the accept replies `wrq_accept_bytes` and
/// `rrq_accept_bytes` describe, with a connection installed exactly
/// when a transfer started.
pub open spec fn initial_reply_post(readonly: bool, bytes: Seq<u8>, r: InitialOutcome) -> bool {
    &&& (crate::packet::spec_decode(bytes) is Err ==> r is Ignore)
    &&& (crate::packet::spec_decode(bytes) matches Ok(m) ==> ({
        &&& (!(m is RRQ || m is WRQ) ==> r is Ignore)
        &&& ((m is RRQ || m is WRQ) ==> (r matches InitialOutcome::Reply { reply, conn_token, .. }
            && ({
            let (fname, mode, opts) = req_parts(m);
            &&& (mode is Mail ==> reply@ == spec_error_bytes(ErrorCode::NoUser) && conn_token
                is None)
            &&& (mode is Netascii ==> reply@ == spec_error_bytes(ErrorCode::NotDefined)
                && conn_token is None)
            &&& ((m is WRQ && mode is Octet && (path_refused(fname) || readonly)) ==> reply@
                == spec_error_bytes(ErrorCode::FileExists) && conn_token is None)
            &&& ((m is RRQ && mode is Octet && path_refused(fname)) ==> reply@
                == spec_error_bytes(ErrorCode::FileNotFound) && conn_token is None)
            &&& (m is WRQ && mode is Octet ==> wrq_accept_bytes(opts, conn_token is Some, reply@))
            &&& (m is RRQ && mode is Octet ==> rrq_accept_bytes(opts, conn_token is Some, reply@))
        })))
    }))
}

/// What a datagram on a connection's socket does, given the
/// connection `c` it reached and the connection `post` left behind.
/// A stray sender gets the UnknownID error back and the connection
/// is untouched; the right sender's bytes are decoded, and whatever
/// decodes is driven through the transfer — which advances as
/// `transfer_rx_post` describes — and its reply is walked into the
/// datagrams sent, the fresh packets becoming the new resend
/// history. Malformed bytes, and requests on a running transfer,
/// draw nothing and change nothing.
pub open spec fn conn_datagram_post<IO: IOAdapter>(
    c: ConnectionState<IO>,
    src: PeerAddr,
    bytes: Seq<u8>,
    r: ConnOutcome,
    post: ConnectionState<IO>,
) -> bool {
    &&& post.remote == c.remote
    &&& (c.remote != src ==> r.stray_reply is Some && post == c)
    &&& (c.remote == src ==> r.stray_reply is None && ({
        ||| (crate::packet::spec_decode(bytes) is Err && r.sends@.len() == 0 && post == c)
        ||| (crate::packet::spec_decode(bytes) matches Ok(m) && ({
            ||| ((m is RRQ || m is WRQ || m is OACK) && !(c.transfer@ is Complete)
                && r.sends@.len() == 0 && post == c)
            ||| exists|items: Seq<ResponseItem>|
                #[trigger] transfer_rx_post(c.transfer@, m, items, post.transfer@)
                    && r.sends.deep_view() =~= spec_walk(items, c.last_packets.deep_view()).0
                    && post.last_packets.deep_view() =~= spec_walk(
                    items,
                    c.last_packets.deep_view(),
                ).1
        }))
    }))
}

/// The tail of the datagrams sent last that an order to repeat the
/// last `n` sends again: all of them when fewer than `n` exist.
pub open spec fn spec_replay(last: Seq<Seq<u8>>, n: int) -> Seq<Seq<u8>> {
    last.skip(
        if n <= last.len() {
            last.len() - n
        } else {
            0
        },
    )
}

/// What walking a reply sequence produces: the datagrams to send, in
/// order, and the fresh packets among them (the next resend
/// history). Packets are sent encoded and enter the history; a
/// repeat order sends the tail of the old history without entering
/// the new one; the walk stops at the transfer's end.
pub open spec fn spec_walk(items: Seq<ResponseItem>, last: Seq<Seq<u8>>) -> (
    Seq<Seq<u8>>,
    Seq<Seq<u8>>,
)
    decreases items.len(),
{
    if items.len() == 0 {
        (Seq::empty(), Seq::empty())
    } else {
        match items[0] {
            ResponseItem::Done => (Seq::empty(), Seq::empty()),
            ResponseItem::Packet(p) => {
                let rest = spec_walk(items.skip(1), last);
                (
                    seq![crate::packet::spec_encode(p@)] + rest.0,
                    seq![crate::packet::spec_encode(p@)] + rest.1,
                )
            },
            ResponseItem::RepeatLast(n) => {
                let rest = spec_walk(items.skip(1), last);
                (spec_replay(last, n as int) + rest.0, rest.1)
            },
        }
    }
}

/// Walks a transfer's reply: encodes and collects the datagrams to
/// send, and collects the fresh packets as the connection's next
/// resend history.
fn walk_response(response: Response, last: &Vec<Vec<u8>>) -> (r: (Vec<Vec<u8>>, Vec<Vec<u8>>))
    ensures
        r.0.deep_view() =~= spec_walk(response@, last.deep_view()).0,
        r.1.deep_view() =~= spec_walk(response@, last.deep_view()).1,
{
    let ghost items0 = response@;
    let ghost lastv = last.deep_view();
    let mut response = response;
    let mut sends: Vec<Vec<u8>> = Vec::new();
    let mut sent_packets: Vec<Vec<u8>> = Vec::new();
    loop
        invariant_except_break
            spec_walk(items0, lastv).0 =~= sends.deep_view() + spec_walk(response@, lastv).0,
            spec_walk(items0, lastv).1 =~= sent_packets.deep_view() + spec_walk(
                response@,
                lastv,
            ).1,
            lastv == last.deep_view(),
        ensures
            sends.deep_view() =~= spec_walk(items0, lastv).0,
            sent_packets.deep_view() =~= spec_walk(items0, lastv).1,
        decreases response@.len(),
    {
        let ghost pre_items = response@;
        let item = match response.next() {
            Some(item) => item,
            None => {
                break;
            },
        };
        proof {
            assert(pre_items[0] == item);
            assert(response@ =~= pre_items.skip(1));
        }
        match item {
            ResponseItem::Done => {
                proof {
                    assert(spec_walk(pre_items, lastv).0 =~= Seq::<Seq<u8>>::empty());
                    assert(spec_walk(pre_items, lastv).1 =~= Seq::<Seq<u8>>::empty());
                }
                break;
            },
            ResponseItem::Packet(p) => {
                let encoded = match p.to_bytes() {
                    Ok(v) => v,
                    Err(_) => Vec::new(),
                };
                let ghost pre_sends = sends.deep_view();
                let ghost pre_sent = sent_packets.deep_view();
                let cl = clone_bytes(&encoded);
                proof {
                    assert(cl.deep_view() =~= encoded@);
                    assert(encoded.deep_view() =~= encoded@);
                }
                sends.push(cl);
                sent_packets.push(encoded);
                proof {
                    assert(sends.deep_view() =~= pre_sends.push(crate::packet::spec_encode(p@)));
                    assert(sent_packets.deep_view() =~= pre_sent.push(
                        crate::packet::spec_encode(p@),
                    ));
                    assert(spec_walk(pre_items, lastv).0 =~= seq![crate::packet::spec_encode(p@)]
                        + spec_walk(response@, lastv).0);
                    assert(spec_walk(items0, lastv).0 =~= sends.deep_view() + spec_walk(
                        response@,
                        lastv,
                    ).0);
                    assert(spec_walk(items0, lastv).1 =~= sent_packets.deep_view() + spec_walk(
                        response@,
                        lastv,
                    ).1);
                }
            },
            ResponseItem::RepeatLast(count) => {
                let ghost pre_sends = sends.deep_view();
                replay_last(last, count, &mut sends);
                proof {
                    assert(sends.deep_view() =~= pre_sends + spec_replay(lastv, count as int));
                    assert(spec_walk(pre_items, lastv).0 =~= spec_replay(lastv, count as int)
                        + spec_walk(response@, lastv).0);
                    assert(spec_walk(items0, lastv).0 =~= sends.deep_view() + spec_walk(
                        response@,
                        lastv,
                    ).0);
                }
            },
        }
    }
    (sends, sent_packets)
}

/// What one timer expiry owes, given the expiring connection: the
/// connection closes exactly when the transfer's timeout step ends
/// it; an order to repeat sends the tail of the datagrams sent last;
/// a fresh packet (the receiver's re-ACK) is sent encoded.
pub open spec fn timer_step_outcome<IO: IOAdapter>(conn: ConnectionState<IO>, r: TimerOutcome) -> bool {
    let step = spec_timeout_step(conn.transfer@);
    &&& r.closed == (step.1 is Done)
    &&& (step.1 matches ResponseItem::RepeatLast(n) ==> r.sends.deep_view()
        =~= conn.last_packets.deep_view().skip(
        if n <= conn.last_packets@.len() {
            conn.last_packets@.len() - n
        } else {
            0
        },
    ))
    &&& (step.1 matches ResponseItem::Packet(p) ==> r.sends.deep_view()
        =~= seq![crate::packet::spec_encode(p@)])
    &&& (step.1 is Done ==> r.sends@.len() == 0)
}

/// What the surviving connection looks like after one timer expiry:
/// the transfer took its timeout step (so its strike flag is set), a
/// fresh re-ACK replaces the resend history, a repeat order leaves
/// the history as it was, and the peer is kept.
pub open spec fn timer_survive_post<IO: IOAdapter>(
    c: ConnectionState<IO>,
    post: ConnectionState<IO>,
) -> bool {
    let step = spec_timeout_step(c.transfer@);
    &&& post.transfer@ == step.0
    &&& post.remote == c.remote
    &&& (step.1 matches ResponseItem::Packet(p) ==> post.last_packets.deep_view()
        =~= seq![crate::packet::spec_encode(p@)])
    &&& (step.1 is RepeatLast ==> post.last_packets == c.last_packets)
}

/// Which role a token plays.
#[derive(PartialEq, Eq, Structural, Clone, Copy, Debug)]
pub enum TokenKind {
    /// The reserved timer token.
    Timer,
    /// One of the listening sockets.
    Listener,
    /// A per-connection socket.
    Connection,
}

/// The dispatcher's bookkeeping: the protocol engine, the connection
/// table, and the token counter.
pub struct DispatchCore<IO: IOAdapter> {
    /// The protocol state machine and filesystem accessor.
    pub proto: TftpServerProto<IO>,
    /// The next connection token to hand out.
    pub new_token: u64,
    /// Listening sockets hold tokens `1 ..= n_listeners`.
    pub n_listeners: u64,
    /// The idle timeout used when a transfer negotiated none.
    pub default_timeout_secs: u64,
    /// The live connections, keyed by token.
    pub connections: Vec<(u64, ConnectionState<IO>)>,
}

impl<IO: IOAdapter> DispatchCore<IO> {
    /// The token namespace is a partition: the timer holds 0,
    /// listeners hold 1 ..= n_listeners, and every connection holds
    /// a distinct token above those and below the counter.
    pub open spec fn wf(&self) -> bool {
        &&& self.n_listeners >= 1
        &&& self.new_token > self.n_listeners
        &&& (forall|i: int|
            0 <= i < self.connections@.len() ==> self.n_listeners < (
            #[trigger] self.connections@[i]).0 < self.new_token)
        &&& (forall|i: int, j: int|
            0 <= i < j < self.connections@.len() ==> (#[trigger] self.connections@[i]).0 != (
            #[trigger] self.connections@[j]).0)
    }

    /// The token belongs to a live connection.
    pub open spec fn spec_has_conn(&self, token: u64) -> bool {
        exists|i: int|
            0 <= i < self.connections@.len() && (#[trigger] self.connections@[i]).0 == token
    }

    /// Creates the bookkeeping for a server with `n_listeners`
    /// listening sockets.
    pub fn new(io: IO, readonly: bool, dir: Option<String>, default_timeout_secs: u64, n_listeners: u64) -> (r: Self)
        requires
            n_listeners >= 1,
            n_listeners < u64::MAX,
        ensures
            r.wf(),
            r.connections@.len() == 0,
            r.n_listeners == n_listeners,
            r.default_timeout_secs == default_timeout_secs,
            r.proto.spec_readonly() == readonly,
    {
        DispatchCore {
            proto: TftpServerProto::new(io, IOPolicyCfg { readonly, path: dir }),
            new_token: n_listeners + 1,
            n_listeners,
            default_timeout_secs,
            connections: Vec::new(),
        }
    }

    /// Which role a token plays under the namespace partition.
    pub fn classify_token(&self, token: u64) -> (r: TokenKind)
        ensures
            token == 0 ==> r == TokenKind::Timer,
            1 <= token <= self.n_listeners ==> r == TokenKind::Listener,
            token > self.n_listeners ==> r == TokenKind::Connection,
    {
        if token == 0 {
            TokenKind::Timer
        } else if token <= self.n_listeners {
            TokenKind::Listener
        } else {
            TokenKind::Connection
        }
    }

    /// Returns a new token that no part of the namespace uses, and
    /// advances the counter past it.
    pub fn generate_token(&mut self) -> (r: u64)
        requires
            old(self).wf(),
            old(self).new_token < u64::MAX,
        ensures
            final(self).wf(),
            r > final(self).n_listeners,
            r != 0,
            !final(self).spec_has_conn(r),
            final(self).connections@ == old(self).connections@,
            final(self).n_listeners == old(self).n_listeners,
            final(self).default_timeout_secs == old(self).default_timeout_secs,
            final(self).proto == old(self).proto,
            final(self).new_token == old(self).new_token + 1,
            r == old(self).new_token,
    {
        let token = self.new_token;
        self.new_token = self.new_token + 1;
        token
    }

    fn find_conn(&self, token: u64) -> (r: Option<usize>)
        ensures
            r matches Some(i) ==> i < self.connections@.len() && self.connections@[i as int].0
                == token,
            r is None ==> !self.spec_has_conn(token),
    {
        let n = self.connections.len();
        let mut i: usize = 0;
        while i < n
            invariant
                n == self.connections@.len(),
                i <= n,
                forall|j: int| 0 <= j < i ==> (#[trigger] self.connections@[j]).0 != token,
            decreases n - i,
        {
            if self.connections[i].0 == token {
                return Some(i);
            }
            i += 1;
        }
        None
    }

    /// Handles a datagram from a listening socket: decodes it, asks
    /// the protocol engine for the initial reply, and installs the
    /// new connection when a transfer was accepted. A datagram that
    /// decodes to nothing usable is dropped without reply.
    pub fn on_initial_datagram(&mut self, bytes: &[u8], peer: PeerAddr) -> (r: InitialOutcome)
        requires
            old(self).wf(),
            old(self).new_token < u64::MAX,
        ensures
            final(self).wf(),
            final(self).n_listeners == old(self).n_listeners,
            crate::packet::spec_decode(bytes@) is Err ==> r is Ignore && final(self).connections@
                == old(self).connections@,
            r matches InitialOutcome::Reply { reply, conn_token, timeout_secs } ==> ({
                &&& (conn_token matches Some(t) ==> (!old(self).spec_has_conn(t) && t != 0 && t
                    > old(self).n_listeners && final(self).connections@.len()
                    == old(self).connections@.len() + 1 && final(self).connections@.last().0 == t
                    && final(self).connections@.last().1.remote == peer
                    && final(self).connections@.last().1.last_packets.deep_view()
                    =~= seq![reply@]))
                &&& (conn_token is None ==> final(self).connections@ == old(self).connections@)
            }),
            r is Ignore ==> final(self).connections@ == old(self).connections@,
            initial_reply_post(old(self).proto.spec_readonly(), bytes@, r),
    {
        let packet = match Packet::read(bytes) {
            Ok(p) => p,
            Err(_) => {
                return InitialOutcome::Ignore;
            },
        };
        let token = self.generate_token();
        let (xfer, res) = self.proto.rx_initial(packet);
        let reply_packet = match res {
            Ok(p) => p,
            Err(_) => {
                return InitialOutcome::Ignore;
            },
        };
        let reply = match reply_packet.to_bytes() {
            Ok(v) => v,
            Err(_) => {
                return InitialOutcome::Ignore;
            },
        };
        match xfer {
            Some(transfer) => {
                let timeout_secs = match transfer.timeout() {
                    Some(s) => s,
                    None => self.default_timeout_secs,
                };
                let mut last_packets: Vec<Vec<u8>> = Vec::new();
                let cl = clone_bytes(&reply);
                proof {
                    assert(cl.deep_view() =~= reply@);
                }
                last_packets.push(cl);
                proof {
                    assert(last_packets.deep_view() =~= seq![reply@]);
                }
                self.connections.push(
                    (token, ConnectionState { transfer, last_packets, remote: peer }),
                );
                InitialOutcome::Reply { reply, conn_token: Some(token), timeout_secs }
            },
            None => InitialOutcome::Reply { reply, conn_token: None, timeout_secs: 0 },
        }
    }

    /// Handles a datagram on a connection's socket: a datagram from
    /// a stray peer draws ERROR(UnknownID) back to that peer and
    /// leaves the connection alone; one from the right peer is
    /// decoded and driven through the transfer, and the datagrams
    /// sent become the connection's resend history.
    #[verifier::rlimit(90)]
    #[verifier::spinoff_prover]
    pub fn on_connection_datagram(&mut self, token: u64, src: PeerAddr, bytes: &[u8]) -> (r:
        ConnOutcome)
        requires
            old(self).wf(),
        ensures
            final(self).wf(),
            final(self).n_listeners == old(self).n_listeners,
            !old(self).spec_has_conn(token) ==> !r.known && final(self).connections@
                == old(self).connections@,
            old(self).spec_has_conn(token) ==> r.known && final(self).spec_has_conn(token)
                && final(self).connections@.len() == old(self).connections@.len(),
            r.stray_reply matches Some(b) ==> b@ == crate::packet::spec_encode(
                spec_unknown_id_error(),
            ) && r.sends@.len() == 0,
            old(self).spec_has_conn(token) ==> exists|i: int, j: int|
                0 <= i < old(self).connections@.len() && old(self).connections@[i].0 == token && 0
                    <= j < final(self).connections@.len() && final(self).connections@[j].0 == token
                    && #[trigger] conn_datagram_post(
                    old(self).connections@[i].1,
                    src,
                    bytes@,
                    r,
                    final(self).connections@[j].1,
                ),
    {
        let idx = match self.find_conn(token) {
            Some(i) => i,
            None => {
                return ConnOutcome { known: false, sends: Vec::new(), stray_reply: None };
            },
        };
        let (tok, mut conn) = self.connections.swap_remove(idx);
        proof {
            lemma_swap_remove_keeps_partition(old(self).connections@, self.connections@, idx as int, self.n_listeners, self.new_token);
            lemma_swap_remove_drops_token(old(self).connections@, self.connections@, idx as int, tok);
        }
        let ghost pre_conn = old(self).connections@[idx as int].1;
        if !peer_eq(&conn.remote, &src) {
            let err = Packet::from(ErrorCode::UnknownID);
            let reply = match err.to_bytes() {
                Ok(v) => v,
                Err(_) => Vec::new(),
            };
            let ghost post_entry = conn;
            self.push_conn(tok, conn);
            let out = ConnOutcome { known: true, sends: Vec::new(), stray_reply: Some(reply) };
            proof {
                let j = self.connections@.len() - 1;
                assert(self.connections@[j] == (tok, post_entry));
                assert(self.connections@[j].0 == token && self.connections@[j].1 == post_entry);
                assert(conn_datagram_post(pre_conn, src, bytes@, out, post_entry));
                assert(conn_datagram_post(
                    old(self).connections@[idx as int].1,
                    src,
                    bytes@,
                    out,
                    self.connections@[j].1,
                ));
            }
            return out;
        }
        let packet = match Packet::read(bytes) {
            Ok(p) => p,
            Err(_) => {
                let ghost post_entry = conn;
                self.push_conn(tok, conn);
                let out = ConnOutcome { known: true, sends: Vec::new(), stray_reply: None };
                proof {
                    let j = self.connections@.len() - 1;
                    assert(self.connections@[j] == (tok, post_entry));
                    assert(self.connections@[j].0 == token && self.connections@[j].1
                        == post_entry);
                    assert(conn_datagram_post(pre_conn, src, bytes@, out, post_entry));
                    assert(conn_datagram_post(
                        old(self).connections@[idx as int].1,
                        src,
                        bytes@,
                        out,
                        self.connections@[j].1,
                    ));
                }
                return out;
            },
        };
        let ghost pre_snap = conn.transfer@;
        let response = match conn.transfer.rx(packet) {
            Ok(resp) => resp,
            Err(_) => {
                let ghost post_entry = conn;
                self.push_conn(tok, conn);
                let out = ConnOutcome { known: true, sends: Vec::new(), stray_reply: None };
                proof {
                    let j = self.connections@.len() - 1;
                    assert(self.connections@[j] == (tok, post_entry));
                    assert(self.connections@[j].0 == token && self.connections@[j].1
                        == post_entry);
                    assert(post_entry == pre_conn);
                    assert(conn_datagram_post(pre_conn, src, bytes@, out, post_entry));
                    assert(conn_datagram_post(
                        old(self).connections@[idx as int].1,
                        src,
                        bytes@,
                        out,
                        self.connections@[j].1,
                    ));
                }
                return out;
            },
        };
        let ghost items = response@;
        let ghost post_snap = conn.transfer@;
        let (sends, sent_packets) = walk_response(response, &conn.last_packets);
        conn.last_packets = sent_packets;
        let ghost post_entry = conn;
        self.push_conn(tok, conn);
        let out = ConnOutcome { known: true, sends, stray_reply: None };
        proof {
            let j = self.connections@.len() - 1;
            assert(self.connections@[j] == (tok, post_entry));
            assert(self.connections@[j].0 == token && self.connections@[j].1 == post_entry);
            assert(transfer_rx_post(pre_snap, packet@, items, post_snap));
            assert(out.sends.deep_view() =~= spec_walk(items, pre_conn.last_packets.deep_view()).0);
            assert(post_entry.last_packets.deep_view() =~= spec_walk(
                items,
                pre_conn.last_packets.deep_view(),
            ).1);
            assert(conn_datagram_post(pre_conn, src, bytes@, out, post_entry));
            assert(conn_datagram_post(
                old(self).connections@[idx as int].1,
                src,
                bytes@,
                out,
                self.connections@[j].1,
            ));
        }
        out
    }

    /// Handles an expired idle timer: the transfer either
    /// retransmits (a fresh ACK, or a replay of the datagrams it
    /// sent last) and the timer restarts, or — on the second expiry
    /// in a row, or after its natural end — the connection closes
    /// and is removed.
    pub fn on_timer_token(&mut self, token: u64) -> (r: TimerOutcome)
        requires
            old(self).wf(),
        ensures
            final(self).wf(),
            final(self).n_listeners == old(self).n_listeners,
            !old(self).spec_has_conn(token) ==> !r.known && final(self).connections@
                == old(self).connections@,
            old(self).spec_has_conn(token) ==> r.known,
            r.known && r.closed ==> !final(self).spec_has_conn(token)
                && final(self).connections@.len() == old(self).connections@.len() - 1,
            r.known && !r.closed ==> final(self).spec_has_conn(token)
                && final(self).connections@.len() == old(self).connections@.len(),
            old(self).spec_has_conn(token) ==> exists|i: int|
                0 <= i < old(self).connections@.len() && (#[trigger] old(
                    self,
                ).connections@[i]).0 == token && timer_step_outcome(
                    old(self).connections@[i].1,
                    r,
                ),
            old(self).spec_has_conn(token) && !r.closed ==> exists|i: int, j: int|
                0 <= i < old(self).connections@.len() && old(self).connections@[i].0 == token && 0
                    <= j < final(self).connections@.len() && final(self).connections@[j].0 == token
                    && #[trigger] timer_survive_post(
                    old(self).connections@[i].1,
                    final(self).connections@[j].1,
                ),
    {
        let idx = match self.find_conn(token) {
            Some(i) => i,
            None => {
                return TimerOutcome {
                    known: false,
                    sends: Vec::new(),
                    closed: false,
                    timeout_secs: 0,
                };
            },
        };
        let (tok, mut conn) = self.connections.swap_remove(idx);
        proof {
            lemma_swap_remove_keeps_partition(old(self).connections@, self.connections@, idx as int, self.n_listeners, self.new_token);
            lemma_swap_remove_drops_token(old(self).connections@, self.connections@, idx as int, tok);
        }
        let ghost pre_conn = old(self).connections@[idx as int].1;
        let item = conn.transfer.timeout_expired();
        match item {
            ResponseItem::Done => {
                let out = TimerOutcome {
                    known: true,
                    sends: Vec::new(),
                    closed: true,
                    timeout_secs: 0,
                };
                proof {
                    assert(timer_step_outcome(pre_conn, out));
                }
                out
            },
            ResponseItem::Packet(p) => {
                let encoded = match p.to_bytes() {
                    Ok(v) => v,
                    Err(_) => Vec::new(),
                };
                let mut sends: Vec<Vec<u8>> = Vec::new();
                let cl = clone_bytes(&encoded);
                proof {
                    assert(cl.deep_view() =~= encoded@);
                }
                sends.push(cl);
                let mut last_packets: Vec<Vec<u8>> = Vec::new();
                last_packets.push(encoded);
                conn.last_packets = last_packets;
                let timeout_secs = match conn.transfer.timeout() {
                    Some(s) => s,
                    None => self.default_timeout_secs,
                };
                let ghost post_entry = conn;
                self.push_conn(tok, conn);
                let out = TimerOutcome { known: true, sends, closed: false, timeout_secs };
                proof {
                    let j = self.connections@.len() - 1;
                    assert(self.connections@[j] == (tok, post_entry));
                    assert(self.connections@[j].0 == token && self.connections@[j].1
                        == post_entry);
                    assert(out.sends.deep_view() =~= seq![crate::packet::spec_encode(p@)]);
                    assert(timer_step_outcome(pre_conn, out));
                    assert(post_entry.last_packets.deep_view() =~= seq![crate::packet::spec_encode(
                        p@,
                    )]);
                    assert(timer_survive_post(pre_conn, post_entry));
                    assert(timer_survive_post(
                        old(self).connections@[idx as int].1,
                        self.connections@[j].1,
                    ));
                }
                out
            },
            ResponseItem::RepeatLast(count) => {
                let mut sends: Vec<Vec<u8>> = Vec::new();
                replay_last(&conn.last_packets, count, &mut sends);
                let timeout_secs = match conn.transfer.timeout() {
                    Some(s) => s,
                    None => self.default_timeout_secs,
                };
                let ghost post_entry = conn;
                self.push_conn(tok, conn);
                let out = TimerOutcome { known: true, sends, closed: false, timeout_secs };
                proof {
                    let j = self.connections@.len() - 1;
                    assert(self.connections@[j] == (tok, post_entry));
                    assert(self.connections@[j].0 == token && self.connections@[j].1
                        == post_entry);
                    assert(timer_step_outcome(pre_conn, out));
                    assert(timer_survive_post(pre_conn, post_entry));
                    assert(timer_survive_post(
                        old(self).connections@[idx as int].1,
                        self.connections@[j].1,
                    ));
                }
                out
            },
        }
    }

    fn push_conn(&mut self, token: u64, conn: ConnectionState<IO>)
        requires
            old(self).wf(),
            old(self).n_listeners < token < old(self).new_token,
            !old(self).spec_has_conn(token),
        ensures
            final(self).wf(),
            final(self).connections@ == old(self).connections@.push((token, conn)),
            final(self).n_listeners == old(self).n_listeners,
            final(self).new_token == old(self).new_token,
            final(self).default_timeout_secs == old(self).default_timeout_secs,
            final(self).proto == old(self).proto,
            final(self).spec_has_conn(token),
    {
        self.connections.push((token, conn));
        proof {
            let s = self.connections@;
            assert(s.last().0 == token);
            assert(forall|j: int| 0 <= j < s.len() - 1 ==> s[j] == old(self).connections@[j]);
            assert(self.spec_has_conn(token));
        }
    }
}

/// The model of the ERROR packet a stray peer is answered with.
pub open spec fn spec_unknown_id_error() -> crate::packet::PacketModel {
    crate::packet::PacketModel::ERROR {
        code: ErrorCode::UnknownID,
        msg: vstd::utf8::encode_utf8(crate::packet::default_msg_view(ErrorCode::UnknownID)),
    }
}

/// Compares two peer addresses.
fn peer_eq(a: &PeerAddr, b: &PeerAddr) -> (r: bool)
    ensures
        r == (*a == *b),
{
    a.ip == b.ip && a.port == b.port && a.is_ipv6 == b.is_ipv6
}

/// Appends copies of the last `n` datagrams of `last` (all of them
/// when fewer exist) to `out`, oldest first — the order they were
/// first sent in.
fn replay_last(last: &Vec<Vec<u8>>, n: usize, out: &mut Vec<Vec<u8>>)
    ensures
        final(out).deep_view() =~= old(out).deep_view() + last.deep_view().skip(
            if n <= last@.len() {
                last@.len() - n
            } else {
                0
            },
        ),
{
    let len = last.len();
    let skipped = if len >= n {
        len - n
    } else {
        0
    };
    let mut i: usize = skipped;
    while i < len
        invariant
            len == last@.len(),
            skipped <= i <= len,
            out.deep_view() =~= old(out).deep_view() + last.deep_view().subrange(
                skipped as int,
                i as int,
            ),
        decreases len - i,
    {
        let ghost prev = out.deep_view();
        let cl = clone_bytes(&last[i]);
        proof {
            assert(cl.deep_view() =~= last@[i as int].deep_view());
            assert(last.deep_view()[i as int] == last@[i as int].deep_view());
        }
        out.push(cl);
        proof {
            assert(out.deep_view() =~= prev.push(cl.deep_view()));
            assert(out.deep_view() =~= old(out).deep_view() + last.deep_view().subrange(
                skipped as int,
                i + 1,
            ));
        }
        i += 1;
    }
    proof {
        assert(last.deep_view().subrange(skipped as int, len as int) =~= last.deep_view().skip(
            skipped as int,
        ));
    }
}

/// Removing one entry by swap keeps every surviving token inside
/// the partition's bounds and keeps tokens distinct.
proof fn lemma_swap_remove_keeps_partition<IO: IOAdapter>(
    pre: Seq<(u64, ConnectionState<IO>)>,
    post: Seq<(u64, ConnectionState<IO>)>,
    idx: int,
    n_listeners: u64,
    new_token: u64,
)
    requires
        0 <= idx < pre.len(),
        post =~= pre.update(idx, pre.last()).drop_last(),
        forall|i: int| 0 <= i < pre.len() ==> n_listeners < (#[trigger] pre[i]).0 < new_token,
        forall|i: int, j: int|
            0 <= i < j < pre.len() ==> (#[trigger] pre[i]).0 != (#[trigger] pre[j]).0,
    ensures
        forall|i: int| 0 <= i < post.len() ==> n_listeners < (#[trigger] post[i]).0 < new_token,
        forall|i: int, j: int|
            0 <= i < j < post.len() ==> (#[trigger] post[i]).0 != (#[trigger] post[j]).0,
{
    assert forall|i: int| 0 <= i < post.len() implies n_listeners < (#[trigger] post[i]).0
        < new_token by {
        if i == idx {
            assert(post[i] == pre[pre.len() - 1]);
        } else {
            assert(post[i] == pre[i]);
        }
    }
    assert forall|i: int, j: int| 0 <= i < j < post.len() implies (#[trigger] post[i]).0 != (
    #[trigger] post[j]).0 by {
        if i == idx {
            assert(post[i] == pre[pre.len() - 1]);
            assert(post[j] == pre[j]);
        } else if j == idx {
            assert(post[j] == pre[pre.len() - 1]);
            assert(post[i] == pre[i]);
        } else {
            assert(post[i] == pre[i]);
            assert(post[j] == pre[j]);
        }
    }
}

/// After removing the entry at `idx` by swap, its token names no
/// entry, provided tokens were distinct.
proof fn lemma_swap_remove_drops_token<IO: IOAdapter>(
    pre: Seq<(u64, ConnectionState<IO>)>,
    post: Seq<(u64, ConnectionState<IO>)>,
    idx: int,
    token: u64,
)
    requires
        0 <= idx < pre.len(),
        post =~= pre.update(idx, pre.last()).drop_last(),
        pre[idx].0 == token,
        forall|i: int, j: int|
            0 <= i < j < pre.len() ==> (#[trigger] pre[i]).0 != (#[trigger] pre[j]).0,
    ensures
        forall|i: int| 0 <= i < post.len() ==> (#[trigger] post[i]).0 != token,
{
    assert forall|i: int| 0 <= i < post.len() implies (#[trigger] post[i]).0 != token by {
        if i == idx {
            assert(post[i] == pre[pre.len() - 1]);
            if idx < pre.len() - 1 {
                assert(pre[idx].0 != pre[pre.len() - 1].0);
            }
        } else {
            assert(post[i] == pre[i]);
            if i < idx {
                assert(pre[i].0 != pre[idx].0);
            } else {
                assert(pre[idx].0 != pre[i].0);
            }
        }
    }
}

} // verus!

//! The per-connection TCP state machine (RFC 793 §3.2, §3.9).
use vstd::prelude::*;
use vstd::arithmetic::div_mod::lemma_add_mod_noop_right;
use crate::header::{
    Ipv4Info, TcpInfo, be32_bytes, ipv4_header_bytes, tcp_checksum, tcp_checksum_of, tcp_fields,
    tcp_header_bytes, write_ipv4_header, write_tcp_header,
};
use crate::seqnum::{
    advance, distance, is_before, is_before_or_at, is_in_range_incl, seq_dist, seq_le, seq_lt,
    seq_plus,
};

verus! {

/// The window this engine announces in its SYN-ACK.
pub const INITIAL_WINDOW: u16 = 10;

/// Time-to-live of every IPv4 packet the engine sends.
pub const REPLY_TTL: u8 = 64;

/// IP protocol number of TCP.
pub const PROTO_TCP: u8 = 6;

/// Length of a TCP header without options.
pub const TCP_HEADER_LEN: u16 = 20;

#[derive(Clone, Copy, Debug, PartialEq, Eq, Structural)]
pub enum State {
    Closed,
    Listen,
    SynRcvd,
    Estab,
}

/// Send sequence space (RFC 793 §3.2, figure 4).
///
/// ```text
///      1         2          3          4
/// ----------|----------|----------|----------
///        SND.UNA    SND.NXT    SND.UNA
///                             +SND.WND
/// ```
/// 1: acknowledged, 2: sent and not yet acknowledged, 3: allowed for new
/// data, 4: not yet allowed.
#[derive(Clone, Copy, Debug, PartialEq, Eq, Structural)]
pub struct SendSequenceSpace {
    /// Oldest unacknowledged sequence number.
    pub una: u32,
    /// Next sequence number to send.
    pub nxt: u32,
    /// Send window.
    pub wnd: u16,
    /// Urgent flag.
    pub up: bool,
    /// Segment sequence number used for the last window update.
    pub wl1: u32,
    /// Segment acknowledgment number used for the last window update.
    pub wl2: u32,
    /// Initial send sequence number.
    pub iss: u32,
}

/// Receive sequence space (RFC 793 §3.2, figure 5).
///
/// ```text
///      1          2          3
/// ----------|----------|----------
///        RCV.NXT    RCV.NXT
///                  +RCV.WND
/// ```
/// 1: received and acknowledged, 2: allowed for reception, 3: not yet allowed.
#[derive(Clone, Copy, Debug, PartialEq, Eq, Structural)]
pub struct RecvSequenceSpace {
    /// Next sequence number expected from the peer.
    pub nxt: u32,
    /// Receive window.
    pub wnd: u16,
    /// Urgent flag.
    pub up: bool,
    /// The peer's initial sequence number.
    pub irs: u32,
}

/// One TCP connection.
#[derive(Clone, Copy, Debug, PartialEq, Eq, Structural)]
pub struct Connection {
    pub state: State,
    pub send: SendSequenceSpace,
    pub recv: RecvSequenceSpace,
}

/// A header-only TCP segment to send, with the addresses of its IPv4 packet.
#[derive(Clone, Copy, Debug, PartialEq, Eq, Structural)]
pub struct Segment {
    pub src_addr: u32,
    pub dst_addr: u32,
    pub src_port: u16,
    pub dst_port: u16,
    pub seq: u32,
    pub ack_num: u32,
    pub window: u16,
    pub syn: bool,
    pub ack: bool,
}

/// The connection that a SYN creates.
pub open spec fn accepted_connection(tcp: TcpInfo, iss: u32) -> Connection {
    Connection {
        state: State::SynRcvd,
        send: SendSequenceSpace {
            una: iss,
            nxt: seq_plus(iss, 1),
            wnd: INITIAL_WINDOW,
            up: false,
            wl1: tcp.sequence_number,
            wl2: iss,
            iss,
        },
        recv: RecvSequenceSpace {
            nxt: seq_plus(tcp.sequence_number, 1),
            wnd: tcp.window_size,
            up: false,
            irs: tcp.sequence_number,
        },
    }
}

/// A segment sent back to where `ip` and `tcp` came from: addresses and ports
/// swapped.
pub open spec fn reply_to(
    ip: Ipv4Info,
    tcp: TcpInfo,
    seq: u32,
    ack_num: u32,
    window: u16,
    syn: bool,
) -> Segment {
    Segment {
        src_addr: ip.destination,
        dst_addr: ip.source,
        src_port: tcp.destination_port,
        dst_port: tcp.source_port,
        seq,
        ack_num,
        window,
        syn,
        ack: true,
    }
}

/// The SYN-ACK that answers the SYN `tcp` with initial send sequence `iss`.
pub open spec fn syn_ack_for(ip: Ipv4Info, tcp: TcpInfo, iss: u32) -> Segment {
    reply_to(ip, tcp, iss, seq_plus(tcp.sequence_number, 1), INITIAL_WINDOW, true)
}

/// The sequence space a segment occupies: its payload plus one for SYN and
/// one for FIN.
pub open spec fn segment_len(tcp: TcpInfo, data_len: nat) -> nat {
    data_len + (if tcp.syn { 1nat } else { 0nat }) + (if tcp.fin { 1nat } else { 0nat })
}

/// `s` lies in the receive window `[recv.nxt, recv.nxt + recv.wnd)`.
pub open spec fn in_recv_window(recv: RecvSequenceSpace, s: u32) -> bool {
    seq_dist(recv.nxt, s) < recv.wnd
}

/// RFC 793's acceptability test for a segment of `len` sequence numbers
/// starting at `seq`: it must overlap the receive window.
pub open spec fn segment_acceptable(recv: RecvSequenceSpace, seq: u32, len: nat) -> bool {
    if len == 0 {
        if recv.wnd == 0 {
            seq == recv.nxt
        } else {
            in_recv_window(recv, seq)
        }
    } else {
        recv.wnd > 0 && (in_recv_window(recv, seq) || in_recv_window(
            recv,
            seq_plus(seq, (len - 1) as nat),
        ))
    }
}

/// `ack` acknowledges something sent and not yet acknowledged:
/// `send.una < ack <= send.nxt` on the sequence circle.
pub open spec fn ack_acceptable(send: SendSequenceSpace, ack: u32) -> bool {
    0 < seq_dist(send.una, ack) && seq_dist(send.una, ack) <= seq_dist(send.una, send.nxt)
}

/// `ack` acknowledges data that was never sent: it is neither acceptable
/// nor at or before `send.una`.
pub open spec fn ack_unsent(send: SendSequenceSpace, ack: u32) -> bool {
    !ack_acceptable(send, ack) && !seq_le(ack, send.una)
}

/// RFC 793's rule for taking a window update from a segment: its ack lies in
/// `[send.una, send.nxt]`, and it is newer than the last update
/// (`seq > wl1`, or `seq == wl1` and `ack >= wl2`).
pub open spec fn window_update_allowed(send: SendSequenceSpace, seq: u32, ack: u32) -> bool {
    &&& seq_dist(send.una, ack) <= seq_dist(send.una, send.nxt)
    &&& (seq_lt(send.wl1, seq) || (seq == send.wl1 && seq_le(send.wl2, ack)))
}

/// The connection after the ACK and window fields of an acceptable segment
/// have been applied, before its payload.
pub open spec fn after_ack(c: Connection, tcp: TcpInfo) -> Connection {
    let acked = if ack_acceptable(c.send, tcp.acknowledgment_number) {
        Connection {
            state: State::Estab,
            send: SendSequenceSpace { una: tcp.acknowledgment_number, ..c.send },
            ..c
        }
    } else {
        c
    };
    if window_update_allowed(c.send, tcp.sequence_number, tcp.acknowledgment_number) {
        Connection {
            send: SendSequenceSpace {
                wnd: tcp.window_size,
                wl1: tcp.sequence_number,
                wl2: tcp.acknowledgment_number,
                ..acked.send
            },
            ..acked
        }
    } else {
        acked
    }
}

/// The segment is processed past the guards: the connection is synchronised,
/// the segment carries an ACK, is no reset, acknowledges nothing unsent, and
/// overlaps the receive window.
pub open spec fn segment_admitted(c: Connection, tcp: TcpInfo, data_len: nat) -> bool {
    &&& (c.state == State::SynRcvd || c.state == State::Estab)
    &&& tcp.ack
    &&& !tcp.rst
    &&& !ack_unsent(c.send, tcp.acknowledgment_number)
    &&& segment_acceptable(c.recv, tcp.sequence_number, segment_len(tcp, data_len))
}

/// Payload is taken: the connection is established after the ACK and the
/// payload starts exactly at `recv.nxt`.
pub open spec fn payload_taken(c: Connection, tcp: TcpInfo, data_len: nat) -> bool {
    &&& segment_admitted(c, tcp, data_len)
    &&& after_ack(c, tcp).state == State::Estab
    &&& data_len > 0
    &&& tcp.sequence_number == c.recv.nxt
}

/// How many payload bytes an in-order segment contributes: no more than the
/// receive window.
pub open spec fn taken_len(recv: RecvSequenceSpace, data_len: nat) -> nat {
    if data_len < recv.wnd {
        data_len
    } else {
        recv.wnd as nat
    }
}

/// The connection after a segment with `data_len` payload bytes.
pub open spec fn next_connection(c: Connection, tcp: TcpInfo, data_len: nat) -> Connection {
    if !segment_admitted(c, tcp, data_len) {
        c
    } else {
        let a = after_ack(c, tcp);
        if payload_taken(c, tcp, data_len) {
            Connection {
                recv: RecvSequenceSpace {
                    nxt: seq_plus(a.recv.nxt, taken_len(a.recv, data_len)),
                    ..a.recv
                },
                ..a
            }
        } else {
            a
        }
    }
}

/// The segment the connection sends in answer, if any.
///
/// Only a synchronised connection answers, and never a reset. A segment that
/// falls outside the receive window (an old duplicate, say) is answered with
/// an empty ACK of the current state, whether or not its ACK bit is set. Of
/// the segments inside the window, one without ACK is dropped silently, and
/// one that acknowledges unsent data gets the same empty ACK. Any other
/// segment with payload is acknowledged: with the advanced `recv.nxt` where
/// the payload was taken, and re-announcing `recv.nxt` where it was not (out
/// of order, or the handshake is not complete yet).
pub open spec fn response(c: Connection, ip: Ipv4Info, tcp: TcpInfo, data_len: nat) -> Option<
    Segment,
> {
    let synchronised = c.state == State::SynRcvd || c.state == State::Estab;
    let empty_ack = reply_to(ip, tcp, c.send.nxt, c.recv.nxt, c.recv.wnd, false);
    if !synchronised || tcp.rst {
        None
    } else if !segment_acceptable(c.recv, tcp.sequence_number, segment_len(tcp, data_len)) {
        Some(empty_ack)
    } else if !tcp.ack {
        None
    } else if ack_unsent(c.send, tcp.acknowledgment_number) {
        Some(empty_ack)
    } else {
        let n = next_connection(c, tcp, data_len);
        if data_len > 0 {
            Some(reply_to(ip, tcp, n.send.nxt, n.recv.nxt, n.recv.wnd, false))
        } else {
            None
        }
    }
}

/// Builds `reply_to(ip, tcp, seq, ack_num, window, syn)`.
fn make_reply(ip: &Ipv4Info, tcp: &TcpInfo, seq: u32, ack_num: u32, window: u16, syn: bool) -> (r:
    Segment)
    ensures
        r == reply_to(*ip, *tcp, seq, ack_num, window, syn),
{
    Segment {
        src_addr: ip.destination,
        dst_addr: ip.source,
        src_port: tcp.destination_port,
        dst_port: tcp.source_port,
        seq,
        ack_num,
        window,
        syn,
        ack: true,
    }
}

impl RecvSequenceSpace {
    /// `s` lies in `[nxt, nxt + wnd)`.
    fn holds(&self, s: u32) -> (r: bool)
        ensures
            r == in_recv_window(*self, s),
    {
        distance(self.nxt, s) < self.wnd as u32
    }

    /// RFC 793's acceptability test for a segment of `len` sequence numbers
    /// starting at `seq`.
    pub fn is_acceptable(&self, seq: u32, len: u128) -> (r: bool)
        ensures
            r == segment_acceptable(*self, seq, len as nat),
    {
        if len == 0 {
            if self.wnd == 0 {
                seq == self.nxt
            } else {
                self.holds(seq)
            }
        } else {
            if self.wnd == 0 {
                false
            } else if self.holds(seq) {
                true
            } else {
                let last_off = ((len - 1) % 0x1_0000_0000) as u32;
                let last = advance(seq, last_off);
                proof {
                    lemma_add_mod_noop_right(seq as int, (len - 1) as int, 0x1_0000_0000);
                }
                assert(last == seq_plus(seq, (len - 1) as nat));
                self.holds(last)
            }
        }
    }
}

impl Connection {
    /// Everything sent but unacknowledged lies ahead of `send.una`:
    /// `send.una <= send.nxt` on the sequence circle.
    pub open spec fn wf(&self) -> bool {
        seq_le(self.send.una, self.send.nxt)
    }

    /// Answers a segment for a connection that does not exist yet.
    ///
    /// Only a SYN opens a connection: it enters SYN-RECEIVED with `iss` as its
    /// initial send sequence number, and the returned SYN-ACK acknowledges the
    /// peer's sequence number plus one. `iss` should be hard to predict.
    pub fn accept(ip_header: &Ipv4Info, tcp_header: &TcpInfo, data: &[u8], iss: u32) -> (r: Option<
        (Connection, Segment),
    >)
        ensures
            !tcp_header.syn ==> r.is_none(),
            tcp_header.syn ==> r == Some(
                (
                    accepted_connection(*tcp_header, iss),
                    syn_ack_for(*ip_header, *tcp_header, iss),
                ),
            ),
            tcp_header.syn ==> {
                let (c, s) = r.unwrap();
                &&& c.wf()
                &&& s.syn && s.ack
                &&& s.seq == iss
                &&& s.ack_num == seq_plus(tcp_header.sequence_number, 1)
                &&& c.state == State::SynRcvd
                &&& c.recv.nxt == seq_plus(tcp_header.sequence_number, 1)
                &&& c.recv.irs == tcp_header.sequence_number
            },
    {
        if !tcp_header.syn {
            return None;
        }
        let irs = tcp_header.sequence_number;
        let conn = Connection {
            state: State::SynRcvd,
            send: SendSequenceSpace {
                una: iss,
                nxt: advance(iss, 1),
                wnd: INITIAL_WINDOW,
                up: false,
                wl1: irs,
                wl2: iss,
                iss,
            },
            recv: RecvSequenceSpace {
                nxt: advance(irs, 1),
                wnd: tcp_header.window_size,
                up: false,
                irs,
            },
        };
        let syn_ack = make_reply(ip_header, tcp_header, conn.send.iss, conn.recv.nxt, conn.send.wnd, true);
        Some((conn, syn_ack))
    }

    /// Handles a segment for this connection and returns the segment to send
    /// in answer, if any.
    pub fn on_packet(&mut self, ip_header: &Ipv4Info, tcp_header: &TcpInfo, data: &[u8]) -> (r:
        Option<Segment>)
        ensures
            *final(self) == next_connection(*old(self), *tcp_header, data@.len()),
            r == response(*old(self), *ip_header, *tcp_header, data@.len()),
            seq_lt(tcp_header.sequence_number, old(self).send.wl1) || (tcp_header.sequence_number
                == old(self).send.wl1 && seq_lt(
                tcp_header.acknowledgment_number,
                old(self).send.wl2,
            )) ==> final(self).send.wnd == old(self).send.wnd,
            old(self).wf() ==> final(self).wf(),
    {
        let synchronised = match self.state {
            State::SynRcvd | State::Estab => true,
            _ => false,
        };
        if !synchronised || tcp_header.rst {
            return None;
        }
        let seq = tcp_header.sequence_number;
        let ack = tcp_header.acknowledgment_number;
        let data_len = data.len();
        let len: u128 = data_len as u128 + (if tcp_header.syn { 1u128 } else { 0u128 }) + (
        if tcp_header.fin {
            1u128
        } else {
            0u128
        });
        if !self.recv.is_acceptable(seq, len) {
            return Some(make_reply(ip_header, tcp_header, self.send.nxt, self.recv.nxt, self.recv.wnd, false));
        }
        if !tcp_header.ack {
            return None;
        }
        let ack_ok = is_in_range_incl(self.send.una, ack, self.send.nxt);
        let unsent = !ack_ok && !is_before_or_at(ack, self.send.una);
        if unsent {
            return Some(make_reply(ip_header, tcp_header, self.send.nxt, self.recv.nxt, self.recv.wnd, false));
        }
        let update_window = distance(self.send.una, ack) <= distance(self.send.una, self.send.nxt)
            && (is_before(self.send.wl1, seq) || (seq == self.send.wl1 && is_before_or_at(
            self.send.wl2,
            ack,
        )));
        if ack_ok {
            self.state = State::Estab;
            self.send.una = ack;
        }
        if update_window {
            self.send.wnd = tcp_header.window_size;
            self.send.wl1 = seq;
            self.send.wl2 = ack;
        }
        let established = match self.state {
            State::Estab => true,
            _ => false,
        };
        if data_len > 0 {
            if established && seq == self.recv.nxt {
                let taken: u32 = if data_len < self.recv.wnd as usize {
                    data_len as u32
                } else {
                    self.recv.wnd as u32
                };
                self.recv.nxt = advance(self.recv.nxt, taken);
            }
            Some(make_reply(ip_header, tcp_header, self.send.nxt, self.recv.nxt, self.recv.wnd, false))
        } else {
            None
        }
    }
}


/// The 4-byte prefix of a frame on the interface: two bytes of flags, then
/// the protocol id 0x0800 (IPv4), big-endian.
pub open spec fn ipv4_frame_prefix() -> Seq<u8> {
    seq![0u8, 0u8, 0x08u8, 0x00u8]
}

/// The TCP checksum of segment `s`.
pub open spec fn segment_checksum(s: Segment) -> u16 {
    tcp_checksum_of(
        be32_bytes(s.src_addr) + be32_bytes(s.dst_addr) + tcp_fields(
            s.src_port,
            s.dst_port,
            s.seq,
            s.ack_num,
            s.window,
            s.syn,
            s.ack,
        ),
    )
}

/// The interface frame that carries segment `s`: the prefix, a 20-byte IPv4
/// header and a 20-byte TCP header with its checksum.
pub open spec fn frame_bytes(s: Segment) -> Seq<u8> {
    ipv4_frame_prefix() + ipv4_header_bytes(TCP_HEADER_LEN, REPLY_TTL, PROTO_TCP, s.src_addr, s.dst_addr)
        + tcp_header_bytes(
        s.src_port,
        s.dst_port,
        s.seq,
        s.ack_num,
        s.window,
        s.syn,
        s.ack,
        segment_checksum(s),
    )
}

impl Segment {
    /// The interface frame that carries this segment.
    pub fn to_frame(&self) -> (r: Vec<u8>)
        ensures
            r@ == frame_bytes(*self),
    {
        let mut out: Vec<u8> = vec![0u8, 0u8, 0x08u8, 0x00u8];
        let mut ip = write_ipv4_header(TCP_HEADER_LEN, REPLY_TTL, PROTO_TCP, self.src_addr, self.dst_addr);
        let checksum = tcp_checksum(
            self.src_addr,
            self.dst_addr,
            self.src_port,
            self.dst_port,
            self.seq,
            self.ack_num,
            self.window,
            self.syn,
            self.ack,
        );
        let mut tcp = write_tcp_header(
            self.src_port,
            self.dst_port,
            self.seq,
            self.ack_num,
            self.window,
            self.syn,
            self.ack,
            checksum,
        );
        out.append(&mut ip);
        out.append(&mut tcp);
        assert(out@ =~= frame_bytes(*self));
        out
    }
}


/// A segment that arrives twice in a row changes the connection only the
/// first time: the replay is already covered by `recv.nxt`, so in particular
/// `recv.nxt` advances once.
pub proof fn lemma_duplicate_segment(c: Connection, tcp: TcpInfo, data_len: nat)
    ensures
        next_connection(next_connection(c, tcp, data_len), tcp, data_len) == next_connection(
            c,
            tcp,
            data_len,
        ),
        next_connection(next_connection(c, tcp, data_len), tcp, data_len).recv.nxt
            == next_connection(c, tcp, data_len).recv.nxt,
{
    let c1 = next_connection(c, tcp, data_len);
    if segment_admitted(c, tcp, data_len) && segment_admitted(c1, tcp, data_len) {
        let a = after_ack(c, tcp);
        if payload_taken(c, tcp, data_len) {
            let k = taken_len(a.recv, data_len);
            assert(0 < k < 0x1_0000_0000);
            assert(c1.recv.nxt != tcp.sequence_number) by {
                assert(c1.recv.nxt == ((c.recv.nxt as nat + k) % 0x1_0000_0000) as u32);
            }
        }
        assert(after_ack(c1, tcp) == c1);
    }
}

} // verus!

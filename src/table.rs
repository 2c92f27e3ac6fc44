//! The connection table and the ingress path that routes interface frames to
//! connections.
use vstd::prelude::*;
use vstd::slice::slice_subrange;
use vstd::arithmetic::div_mod::lemma_fundamental_div_mod_converse;
use vstd::std_specs::hash::group_hash_axioms;
use std::collections::HashMap;
use crate::header::{
    Ipv4Info, TcpInfo, be16_at, ipv4_header_ok, ipv4_info_of, parse_ipv4_at, parse_tcp_at,
    tcp_header_ok, tcp_info_of,
};
use crate::tcp::{
    Connection, Segment, accepted_connection, next_connection, response, syn_ack_for,
};

verus! {

/// Length of the frame prefix the interface puts before each IP packet.
pub const FRAME_PREFIX_LEN: usize = 4;

/// Protocol id of IPv4 in the frame prefix.
pub const PROTO_ID_IPV4: u16 = 0x0800;

/// IP protocol number of TCP.
pub const IP_PROTO_TCP: u8 = 6;

/// An IPv4 address and a TCP port.
#[derive(Clone, Copy, Debug, PartialEq, Eq, Hash, Structural)]
pub struct Endpoint {
    pub addr: u32,
    pub port: u16,
}

/// A connection's key: the peer's address and port (`src`) and the local
/// address and port (`dst`), as they appear in an inbound segment.
#[derive(Clone, Copy, Debug, PartialEq, Eq, Hash, Structural)]
pub struct Quad {
    pub src: Endpoint,
    pub dst: Endpoint,
}

/// The key of the connection an inbound segment belongs to.
pub open spec fn quad_of(ip: Ipv4Info, tcp: TcpInfo) -> Quad {
    Quad {
        src: Endpoint { addr: ip.source, port: tcp.source_port },
        dst: Endpoint { addr: ip.destination, port: tcp.destination_port },
    }
}

/// Builds `quad_of(ip, tcp)`.
pub fn quad_for(ip: &Ipv4Info, tcp: &TcpInfo) -> (r: Quad)
    ensures
        r == quad_of(*ip, *tcp),
{
    Quad {
        src: Endpoint { addr: ip.source, port: tcp.source_port },
        dst: Endpoint { addr: ip.destination, port: tcp.destination_port },
    }
}


/// Why a frame was set aside without reaching a connection.
#[derive(Clone, Copy, Debug, PartialEq, Eq, Structural)]
pub enum Discard {
    /// Shorter than the 4-byte frame prefix.
    ShortFrame,
    /// The prefix names a protocol other than IPv4.
    NotIpv4,
    /// The IPv4 header does not parse.
    MalformedIpv4,
    /// The IPv4 packet carries a protocol other than TCP.
    NotTcp,
    /// The TCP header does not parse.
    MalformedTcp,
}

/// Where the IPv4 packet of frame `f` starts, and where its TCP header starts.
pub open spec fn tcp_start(f: Seq<u8>) -> int {
    FRAME_PREFIX_LEN + ipv4_info_of(f.subrange(FRAME_PREFIX_LEN as int, f.len() as int)).header_len
}

/// What frame `f` holds: the IPv4 and TCP headers of a TCP segment and the
/// length of its payload, or why it is discarded.
pub open spec fn classify(f: Seq<u8>) -> Result<(Ipv4Info, TcpInfo, nat), Discard> {
    if f.len() < FRAME_PREFIX_LEN {
        Err(Discard::ShortFrame)
    } else if be16_at(f, 2) != PROTO_ID_IPV4 {
        Err(Discard::NotIpv4)
    } else if !ipv4_header_ok(f.subrange(FRAME_PREFIX_LEN as int, f.len() as int)) {
        Err(Discard::MalformedIpv4)
    } else if ipv4_info_of(f.subrange(FRAME_PREFIX_LEN as int, f.len() as int)).protocol
        != IP_PROTO_TCP {
        Err(Discard::NotTcp)
    } else if !tcp_header_ok(f.subrange(tcp_start(f), f.len() as int)) {
        Err(Discard::MalformedTcp)
    } else {
        let tcp = tcp_info_of(f.subrange(tcp_start(f), f.len() as int));
        Ok(
            (
                ipv4_info_of(f.subrange(FRAME_PREFIX_LEN as int, f.len() as int)),
                tcp,
                (f.len() - tcp_start(f) - tcp.header_len) as nat,
            ),
        )
    }
}

/// The integer that stands for an endpoint: address, then port.
pub open spec fn endpoint_key(e: Endpoint) -> nat {
    e.addr as nat * 0x1_0000 + e.port as nat
}

/// The integer that stands for `q` in the table: source endpoint, then
/// destination endpoint, side by side.
pub open spec fn quad_key(q: Quad) -> u128 {
    (endpoint_key(q.src) * 0x1_0000_0000_0000 + endpoint_key(q.dst)) as u128
}

/// Distinct keys get distinct integers.
pub proof fn lemma_quad_key_injective(a: Quad, b: Quad)
    requires
        quad_key(a) == quad_key(b),
    ensures
        a == b,
{
    let m: int = 0x1_0000_0000_0000;
    let ka = endpoint_key(a.src) * m + endpoint_key(a.dst);
    let kb = endpoint_key(b.src) * m + endpoint_key(b.dst);
    assert(endpoint_key(a.src) < m && endpoint_key(b.src) < m);
    assert(ka < 0x1_0000_0000_0000_0000_0000_0000) by (nonlinear_arith)
        requires ka == endpoint_key(a.src) * m + endpoint_key(a.dst), endpoint_key(a.src) < m,
            endpoint_key(a.dst) < m, m == 0x1_0000_0000_0000;
    assert(kb < 0x1_0000_0000_0000_0000_0000_0000) by (nonlinear_arith)
        requires kb == endpoint_key(b.src) * m + endpoint_key(b.dst), endpoint_key(b.src) < m,
            endpoint_key(b.dst) < m, m == 0x1_0000_0000_0000;
    assert(ka == kb);
    lemma_fundamental_div_mod_converse(ka, m, endpoint_key(a.src) as int, endpoint_key(a.dst) as int);
    lemma_fundamental_div_mod_converse(kb, m, endpoint_key(b.src) as int, endpoint_key(b.dst) as int);
    let n: int = 0x1_0000;
    lemma_fundamental_div_mod_converse(endpoint_key(a.src) as int, n, a.src.addr as int, a.src.port as int);
    lemma_fundamental_div_mod_converse(endpoint_key(b.src) as int, n, b.src.addr as int, b.src.port as int);
    lemma_fundamental_div_mod_converse(endpoint_key(a.dst) as int, n, a.dst.addr as int, a.dst.port as int);
    lemma_fundamental_div_mod_converse(endpoint_key(b.dst) as int, n, b.dst.addr as int, b.dst.port as int);
}

/// Builds `quad_key(q)`.
pub fn key_for(q: &Quad) -> (r: u128)
    ensures
        r == quad_key(*q),
{
    let s: u128 = q.src.addr as u128 * 0x1_0000 + q.src.port as u128;
    let d: u128 = q.dst.addr as u128 * 0x1_0000 + q.dst.port as u128;
    assert(s * 0x1_0000_0000_0000 + d < 0x1_0000_0000_0000_0000_0000_0000) by (nonlinear_arith)
        requires s < 0x1_0000_0000_0000, d < 0x1_0000_0000_0000;
    s * 0x1_0000_0000_0000 + d
}

/// All live connections, keyed by `Quad`.
pub struct ConnectionTable {
    conns: HashMap<u128, Connection>,
}

impl ConnectionTable {
    /// Every connection is well formed.
    pub closed spec fn wf(&self) -> bool {
        forall|k: u128| #[trigger] self.conns@.contains_key(k) ==> self.conns@[k].wf()
    }

    /// The table as a map from key to connection.
    pub closed spec fn view(&self) -> Map<Quad, Connection> {
        Map::new(
            |q: Quad| self.conns@.contains_key(quad_key(q)),
            |q: Quad| self.conns@[quad_key(q)],
        )
    }

    /// An empty table.
    pub fn new() -> (r: ConnectionTable)
        ensures
            r.wf(),
            r@ == Map::<Quad, Connection>::empty(),
    {
        let r = ConnectionTable { conns: HashMap::new() };
        assert(r@ =~= Map::<Quad, Connection>::empty());
        r
    }

    /// The connection keyed by `q`, if there is one.
    pub fn get(&self, q: &Quad) -> (r: Option<Connection>)
        requires
            self.wf(),
        ensures
            r == (if self@.contains_key(*q) {
                Some(self@[*q])
            } else {
                None
            }),
            r.is_some() ==> r.unwrap().wf(),
    {
        broadcast use group_hash_axioms;

        let k = key_for(q);
        match self.conns.get(&k) {
            Some(c) => Some(*c),
            None => None,
        }
    }

    /// Removes the entry keyed by `q` and returns its connection, if there
    /// was one.
    pub fn remove(&mut self, q: &Quad) -> (r: Option<Connection>)
        requires
            old(self).wf(),
        ensures
            final(self).wf(),
            final(self)@ == old(self)@.remove(*q),
            r == (if old(self)@.contains_key(*q) {
                Some(old(self)@[*q])
            } else {
                None
            }),
    {
        broadcast use group_hash_axioms;

        let ghost before = *self;
        let k = key_for(q);
        let r = self.conns.remove(&k);
        proof {
            assert forall|q2: Quad| #[trigger] self@.contains_key(q2) == before@.remove(
                *q,
            ).contains_key(q2) by {
                if quad_key(q2) == quad_key(*q) {
                    lemma_quad_key_injective(q2, *q);
                }
            }
            assert(self@ =~= before@.remove(*q));
        }
        r
    }

    /// Stores `c` under `q`, in place of any connection there.
    fn put(&mut self, q: Quad, c: Connection)
        requires
            old(self).wf(),
            c.wf(),
        ensures
            final(self).wf(),
            final(self)@ == old(self)@.insert(q, c),
    {
        broadcast use group_hash_axioms;

        let ghost before = *self;
        let k = key_for(&q);
        self.conns.insert(k, c);
        proof {
            assert forall|q2: Quad| #[trigger] self@.contains_key(q2) == before@.insert(
                q,
                c,
            ).contains_key(q2) by {
                if quad_key(q2) == quad_key(q) {
                    lemma_quad_key_injective(q2, q);
                }
            }
            assert forall|q2: Quad| #[trigger] self@.contains_key(q2) implies self@[q2]
                == before@.insert(q, c)[q2] by {
                if quad_key(q2) == quad_key(q) {
                    lemma_quad_key_injective(q2, q);
                }
            }
            assert(self@ =~= before@.insert(q, c));
        }
    }

    /// Routes one interface frame.
    ///
    /// A frame that is not a well-formed TCP segment over IPv4 is discarded
    /// with its reason. A segment for a known key goes to that connection's
    /// `on_packet`; a SYN for an unknown key opens a connection with initial
    /// send sequence number `iss`; any other segment for an unknown key is
    /// ignored. The result is the segment to send in answer, if any.
    /// Every connection in the table stays well formed.
    pub fn on_frame(&mut self, frame: &[u8], iss: u32) -> (r: Result<Option<Segment>, Discard>)
        requires
            old(self).wf(),
        ensures
            final(self).wf(),
            match classify(frame@) {
                Err(e) => r == Err::<Option<Segment>, Discard>(e) && final(self)@ == old(self)@,
                Ok((ip, tcp, n)) => {
                    let q = quad_of(ip, tcp);
                    if old(self)@.contains_key(q) {
                        &&& final(self)@ == old(self)@.insert(
                            q,
                            next_connection(old(self)@[q], tcp, n),
                        )
                        &&& r == Ok::<Option<Segment>, Discard>(
                            response(old(self)@[q], ip, tcp, n),
                        )
                    } else if tcp.syn {
                        &&& final(self)@ == old(self)@.insert(q, accepted_connection(tcp, iss))
                        &&& r == Ok::<Option<Segment>, Discard>(Some(syn_ack_for(ip, tcp, iss)))
                    } else {
                        &&& final(self)@ == old(self)@
                        &&& r == Ok::<Option<Segment>, Discard>(None)
                    }
                },
            },
    {
        if frame.len() < FRAME_PREFIX_LEN {
            return Err(Discard::ShortFrame);
        }
        let proto_id: u16 = (frame[2] as u16) * 0x100 + frame[3] as u16;
        if proto_id != PROTO_ID_IPV4 {
            return Err(Discard::NotIpv4);
        }
        let ip = match parse_ipv4_at(frame, FRAME_PREFIX_LEN) {
            Some(ip) => ip,
            None => {
                return Err(Discard::MalformedIpv4);
            },
        };
        if ip.protocol != IP_PROTO_TCP {
            return Err(Discard::NotTcp);
        }
        let tcp_at = FRAME_PREFIX_LEN + ip.header_len;
        let tcp = match parse_tcp_at(frame, tcp_at) {
            Some(tcp) => tcp,
            None => {
                return Err(Discard::MalformedTcp);
            },
        };
        let data_at = tcp_at + tcp.header_len;
        let data = slice_subrange(frame, data_at, frame.len());
        let q = quad_for(&ip, &tcp);
        match self.get(&q) {
            Some(conn) => {
                let mut conn = conn;
                let reply = conn.on_packet(&ip, &tcp, data);
                self.put(q, conn);
                Ok(reply)
            },
            None => match Connection::accept(&ip, &tcp, data, iss) {
                Some((conn, syn_ack)) => {
                    self.put(q, conn);
                    Ok(Some(syn_ack))
                },
                None => Ok(None),
            },
        }
    }
}

/// Keys are directional. Two inbound segments share a key exactly when their
/// source endpoints agree and their destination endpoints agree; a segment
/// whose endpoints are those of another segment swapped shares its key only
/// when source and destination are the same endpoint.
pub proof fn lemma_quad_directional(ip1: Ipv4Info, tcp1: TcpInfo, ip2: Ipv4Info, tcp2: TcpInfo)
    ensures
        (quad_of(ip1, tcp1) == quad_of(ip2, tcp2)) <==> (ip1.source == ip2.source
            && tcp1.source_port == tcp2.source_port && ip1.destination == ip2.destination
            && tcp1.destination_port == tcp2.destination_port),
        (ip2.source == ip1.destination && tcp2.source_port == tcp1.destination_port
            && ip2.destination == ip1.source && tcp2.destination_port == tcp1.source_port) ==> (
        (quad_of(ip1, tcp1) == quad_of(ip2, tcp2)) <==> (quad_of(ip1, tcp1).src == quad_of(
            ip1,
            tcp1,
        ).dst)),
{
}

} // verus!

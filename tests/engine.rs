use tcp_engine::header::{Ipv4Info, TcpInfo};
use tcp_engine::seqnum::{advance, distance, is_before, is_before_or_at, is_in_range_incl};
use tcp_engine::table::{key_for, ConnectionTable, Discard, Endpoint, Quad};
use tcp_engine::tcp::{
    Connection, RecvSequenceSpace, Segment, SendSequenceSpace, State, INITIAL_WINDOW,
};

const CLIENT: u32 = 0x0a00_0002; // 10.0.0.2
const SERVER: u32 = 0x0a00_0001; // 10.0.0.1

const FIN: u8 = 0x01;
const SYN: u8 = 0x02;
const RST: u8 = 0x04;
const ACK: u8 = 0x10;

/// An interface frame carrying a TCP segment from `src` to `dst`.
fn frame(
    src: (u32, u16),
    dst: (u32, u16),
    seq: u32,
    ack: u32,
    flags: u8,
    window: u16,
    payload: &[u8],
) -> Vec<u8> {
    let total = (40 + payload.len()) as u16;
    let mut f = vec![0u8, 0, 0x08, 0x00];
    f.extend_from_slice(&[0x45, 0]);
    f.extend_from_slice(&total.to_be_bytes());
    f.extend_from_slice(&[0, 0, 0x40, 0, 64, 6, 0, 0]);
    f.extend_from_slice(&src.0.to_be_bytes());
    f.extend_from_slice(&dst.0.to_be_bytes());
    f.extend_from_slice(&src.1.to_be_bytes());
    f.extend_from_slice(&dst.1.to_be_bytes());
    f.extend_from_slice(&seq.to_be_bytes());
    f.extend_from_slice(&ack.to_be_bytes());
    f.extend_from_slice(&[0x50, flags]);
    f.extend_from_slice(&window.to_be_bytes());
    f.extend_from_slice(&[0, 0, 0, 0]);
    f.extend_from_slice(payload);
    f
}

fn client_quad() -> Quad {
    Quad {
        src: Endpoint { addr: CLIENT, port: 40000 },
        dst: Endpoint { addr: SERVER, port: 80 },
    }
}

fn ip_in() -> Ipv4Info {
    Ipv4Info { source: CLIENT, destination: SERVER, protocol: 6, header_len: 20 }
}

fn tcp_in(seq: u32, ack_num: u32, syn: bool, ack: bool, window: u16) -> TcpInfo {
    TcpInfo {
        source_port: 40000,
        destination_port: 80,
        sequence_number: seq,
        acknowledgment_number: ack_num,
        window_size: window,
        syn,
        ack,
        fin: false,
        rst: false,
        header_len: 20,
    }
}

fn established(una: u32, nxt: u32, rcv_nxt: u32, wl1: u32, wl2: u32) -> Connection {
    Connection {
        state: State::Estab,
        send: SendSequenceSpace { una, nxt, wnd: 100, up: false, wl1, wl2, iss: una },
        recv: RecvSequenceSpace { nxt: rcv_nxt, wnd: 4096, up: false, irs: rcv_nxt },
    }
}

fn ipv4_checksum(h: &[u8]) -> u16 {
    let mut sum: u32 = 0;
    for i in (0..h.len()).step_by(2) {
        if i != 10 {
            sum += u32::from(u16::from_be_bytes([h[i], h[i + 1]]));
        }
    }
    while sum > 0xffff {
        sum = (sum & 0xffff) + (sum >> 16);
    }
    !(sum as u16)
}

fn tcp_checksum(src: u32, dst: u32, h: &[u8]) -> u16 {
    let mut words: Vec<u16> = vec![
        (src >> 16) as u16,
        src as u16,
        (dst >> 16) as u16,
        dst as u16,
        6,
        h.len() as u16,
    ];
    for i in (0..h.len()).step_by(2) {
        if i != 16 {
            words.push(u16::from_be_bytes([h[i], h[i + 1]]));
        }
    }
    let mut sum: u32 = words.iter().map(|w| u32::from(*w)).sum();
    while sum > 0xffff {
        sum = (sum & 0xffff) + (sum >> 16);
    }
    !(sum as u16)
}

#[test]
fn end_to_end_handshake() {
    let mut table = ConnectionTable::new();
    let syn = frame((CLIENT, 40000), (SERVER, 80), 1000, 0, SYN, 4096, &[]);
    let reply = table.on_frame(&syn, 5000).unwrap().unwrap();
    assert!(reply.syn && reply.ack);
    assert_eq!(reply.seq, 5000);
    assert_eq!(reply.ack_num, 1001);
    assert_eq!(reply.window, 10);
    assert_eq!((reply.src_addr, reply.src_port), (SERVER, 80));
    assert_eq!((reply.dst_addr, reply.dst_port), (CLIENT, 40000));
    let conn = table.get(&client_quad()).unwrap();
    assert_eq!(conn.state, State::SynRcvd);
    assert_eq!(conn.recv.nxt, 1001);
    assert_eq!(conn.recv.irs, 1000);

    let ack = frame((CLIENT, 40000), (SERVER, 80), 1001, 5001, ACK, 4096, &[]);
    assert_eq!(table.on_frame(&ack, 9).unwrap(), None);
    let conn = table.get(&client_quad()).unwrap();
    assert_eq!(conn.state, State::Estab);
    assert_eq!(conn.send.una, 5001);
    assert_eq!(conn.send.wnd, 4096);
}

#[test]
fn handshake_fields_from_accept() {
    let (conn, reply) = Connection::accept(&ip_in(), &tcp_in(77, 0, true, false, 512), &[], 9)
        .unwrap();
    assert!(reply.syn && reply.ack);
    assert_eq!(reply.seq, 9);
    assert_eq!(reply.ack_num, 78);
    assert_eq!(reply.window, INITIAL_WINDOW);
    assert_eq!(conn.state, State::SynRcvd);
    assert_eq!(conn.recv.nxt, 78);
    assert_eq!(conn.recv.irs, 77);
    assert_eq!(conn.recv.wnd, 512);
    assert_eq!((conn.send.iss, conn.send.una, conn.send.nxt), (9, 9, 10));
}

#[test]
fn accept_ignores_non_syn() {
    assert!(Connection::accept(&ip_in(), &tcp_in(77, 0, false, true, 512), &[], 9).is_none());
}

#[test]
fn accept_wraps_sequence_numbers() {
    let (conn, reply) =
        Connection::accept(&ip_in(), &tcp_in(0xffff_ffff, 0, true, false, 1), &[], 0xffff_ffff)
            .unwrap();
    assert_eq!(conn.recv.nxt, 0);
    assert_eq!(reply.ack_num, 0);
    assert_eq!(conn.send.nxt, 0);
}

#[test]
fn ack_window_across_wraparound() {
    let una = 0xffff_fff0u32;
    let nxt = una.wrapping_add(32);
    assert_eq!(nxt, 0x10);
    assert!(is_in_range_incl(una, 0xffff_fff8, nxt));
    assert!(is_in_range_incl(una, 0xffff_ffff, nxt));
    assert!(is_in_range_incl(una, 0x0000_0000, nxt));
    assert!(is_in_range_incl(una, 0x0000_0008, nxt));
    assert!(is_in_range_incl(una, 0x0000_0010, nxt));
    assert!(!is_in_range_incl(una, 0x0000_0011, nxt));
    assert!(!is_in_range_incl(una, una, nxt));
    assert!(!is_in_range_incl(una, 0xffff_ffef, nxt));
}

#[test]
fn ack_across_wraparound_moves_una() {
    let mut conn = established(0xffff_fff0, 0x10, 500, 499, 0xffff_fff0);
    let reply = conn.on_packet(&ip_in(), &tcp_in(500, 0x8, false, true, 300), &[]);
    assert_eq!(reply, None);
    assert_eq!(conn.send.una, 0x8);
    assert_eq!(conn.send.wnd, 300);
}

#[test]
fn sequence_helpers() {
    assert_eq!(distance(0xffff_fff0, 0x10), 32);
    assert_eq!(distance(5, 3), 0xffff_fffe);
    assert_eq!(advance(0xffff_ffff, 2), 1);
    assert!(is_before(0xffff_fff0, 0x10));
    assert!(!is_before(0x10, 0xffff_fff0));
    assert!(!is_before(7, 7));
    assert!(is_before_or_at(7, 7));
    assert!(!is_before_or_at(0x8000_0000, 0));
}

#[test]
fn old_window_update_is_refused() {
    let mut conn = established(100, 100, 900, 1000, 100);
    let reply = conn.on_packet(&ip_in(), &tcp_in(999, 100, false, true, 7), &[]);
    assert_eq!(reply, None);
    assert_eq!(conn.send.wnd, 100);
    assert_eq!((conn.send.wl1, conn.send.wl2), (1000, 100));
}

#[test]
fn same_seq_older_ack_window_update_is_refused() {
    let mut conn = established(100, 200, 1000, 1000, 150);
    conn.on_packet(&ip_in(), &tcp_in(1000, 120, false, true, 7), &[]);
    assert_eq!(conn.send.wnd, 100);
    assert_eq!((conn.send.wl1, conn.send.wl2), (1000, 150));
    assert_eq!(conn.send.una, 120);
}

#[test]
fn newer_window_update_is_taken() {
    let mut conn = established(100, 200, 1000, 1000, 150);
    conn.on_packet(&ip_in(), &tcp_in(1000, 150, false, true, 7), &[]);
    assert_eq!(conn.send.wnd, 7);
    conn.on_packet(&ip_in(), &tcp_in(1000, 160, false, true, 9), &[]);
    assert_eq!(conn.send.wnd, 9);
    assert_eq!((conn.send.wl1, conn.send.wl2), (1000, 160));
}

#[test]
fn duplicate_data_segment_advances_once() {
    let mut conn = established(100, 100, 1000, 999, 100);
    let seg = tcp_in(1000, 100, false, true, 50);
    let first = conn.on_packet(&ip_in(), &seg, b"hello").unwrap();
    assert_eq!(conn.recv.nxt, 1005);
    assert_eq!(first.ack_num, 1005);
    let after_first = conn;
    let second = conn.on_packet(&ip_in(), &seg, b"hello").unwrap();
    assert_eq!(conn.recv.nxt, 1005);
    assert_eq!(conn, after_first);
    assert_eq!(second.ack_num, 1005);
    assert!(!second.syn && second.ack);
}

#[test]
fn data_through_table_is_acknowledged() {
    let mut table = ConnectionTable::new();
    table.on_frame(&frame((CLIENT, 40000), (SERVER, 80), 1000, 0, SYN, 4096, &[]), 5000).unwrap();
    table.on_frame(&frame((CLIENT, 40000), (SERVER, 80), 1001, 5001, ACK, 4096, &[]), 0).unwrap();
    let data = frame((CLIENT, 40000), (SERVER, 80), 1001, 5001, ACK, 4096, b"abc");
    let reply = table.on_frame(&data, 0).unwrap().unwrap();
    assert_eq!(reply.ack_num, 1004);
    assert_eq!(reply.seq, 5001);
    assert_eq!(reply.window, 4096);
    assert_eq!(table.get(&client_quad()).unwrap().recv.nxt, 1004);
}

#[test]
fn out_of_order_data_is_dropped_and_reacked() {
    let mut conn = established(100, 100, 1000, 999, 100);
    let reply = conn.on_packet(&ip_in(), &tcp_in(1010, 100, false, true, 50), b"late").unwrap();
    assert_eq!(conn.recv.nxt, 1000);
    assert_eq!(reply.ack_num, 1000);
}

#[test]
fn payload_is_cut_to_receive_window() {
    let mut conn = established(100, 100, 1000, 999, 100);
    conn.recv.wnd = 3;
    let reply = conn.on_packet(&ip_in(), &tcp_in(1000, 100, false, true, 50), b"abcdef").unwrap();
    assert_eq!(conn.recv.nxt, 1003);
    assert_eq!(reply.ack_num, 1003);
}

#[test]
fn ack_of_unsent_data_gets_empty_ack() {
    let mut conn = established(100, 110, 1000, 999, 100);
    let before = conn;
    let reply = conn.on_packet(&ip_in(), &tcp_in(1000, 500, false, true, 50), b"xy").unwrap();
    assert_eq!(conn, before);
    assert_eq!((reply.seq, reply.ack_num), (110, 1000));
    assert!(!reply.syn && reply.ack);
}

#[test]
fn segment_outside_window_gets_empty_ack() {
    let mut conn = established(100, 100, 1000, 999, 100);
    let before = conn;
    let reply = conn.on_packet(&ip_in(), &tcp_in(900, 100, false, true, 50), b"old").unwrap();
    assert_eq!(conn, before);
    assert_eq!((reply.seq, reply.ack_num), (100, 1000));
}

#[test]
fn segment_without_ack_or_with_reset_is_dropped() {
    let mut conn = established(100, 100, 1000, 999, 100);
    let before = conn;
    assert_eq!(conn.on_packet(&ip_in(), &tcp_in(1000, 100, false, false, 5), b"x"), None);
    let mut rst = tcp_in(1000, 100, false, true, 5);
    rst.rst = true;
    assert_eq!(conn.on_packet(&ip_in(), &rst, b"x"), None);
    assert_eq!(conn, before);
}

#[test]
fn syn_received_needs_ack_of_syn() {
    let (mut conn, _) = Connection::accept(&ip_in(), &tcp_in(1000, 0, true, false, 64), &[], 5000)
        .unwrap();
    conn.on_packet(&ip_in(), &tcp_in(1001, 5000, false, true, 64), &[]);
    assert_eq!(conn.state, State::SynRcvd);
    conn.on_packet(&ip_in(), &tcp_in(1001, 5001, false, true, 64), &[]);
    assert_eq!(conn.state, State::Estab);
    assert_eq!(conn.send.una, 5001);
}

#[test]
fn swapped_endpoints_do_not_match() {
    let mut table = ConnectionTable::new();
    table.on_frame(&frame((CLIENT, 40000), (SERVER, 80), 1000, 0, SYN, 4096, &[]), 5000).unwrap();
    let reverse = frame((SERVER, 80), (CLIENT, 40000), 1, 1001, ACK, 4096, &[]);
    assert_eq!(table.on_frame(&reverse, 0).unwrap(), None);
    let swapped = Quad { src: client_quad().dst, dst: client_quad().src };
    assert!(table.get(&swapped).is_none());
    assert_eq!(table.get(&client_quad()).unwrap().state, State::SynRcvd);
}

#[test]
fn non_syn_to_unknown_quad_is_ignored() {
    let mut table = ConnectionTable::new();
    let f = frame((CLIENT, 40000), (SERVER, 80), 1000, 1, ACK | FIN, 4096, &[]);
    assert_eq!(table.on_frame(&f, 5000).unwrap(), None);
    assert!(table.get(&client_quad()).is_none());
    let f = frame((CLIENT, 40000), (SERVER, 80), 1000, 1, RST, 4096, &[]);
    assert_eq!(table.on_frame(&f, 5000).unwrap(), None);
}

#[test]
fn frames_that_are_discarded() {
    let mut table = ConnectionTable::new();
    assert_eq!(table.on_frame(&[0, 0, 8], 1), Err(Discard::ShortFrame));

    let mut f = frame((CLIENT, 40000), (SERVER, 80), 1000, 0, SYN, 4096, &[]);
    f[2] = 0x86;
    f[3] = 0xdd;
    assert_eq!(table.on_frame(&f, 1), Err(Discard::NotIpv4));

    let mut f = frame((CLIENT, 40000), (SERVER, 80), 1000, 0, SYN, 4096, &[]);
    f[4] = 0x65;
    assert_eq!(table.on_frame(&f, 1), Err(Discard::MalformedIpv4));

    let f = frame((CLIENT, 40000), (SERVER, 80), 1000, 0, SYN, 4096, &[]);
    assert_eq!(table.on_frame(&f[..20], 1), Err(Discard::MalformedIpv4));

    let mut f = frame((CLIENT, 40000), (SERVER, 80), 1000, 0, SYN, 4096, &[]);
    f[13] = 17;
    assert_eq!(table.on_frame(&f, 1), Err(Discard::NotTcp));

    let mut f = frame((CLIENT, 40000), (SERVER, 80), 1000, 0, SYN, 4096, &[]);
    f[4 + 20 + 12] = 0x40;
    assert_eq!(table.on_frame(&f, 1), Err(Discard::MalformedTcp));

    let f = frame((CLIENT, 40000), (SERVER, 80), 1000, 0, SYN, 4096, &[]);
    assert_eq!(table.on_frame(&f[..40], 1), Err(Discard::MalformedTcp));
    assert!(table.get(&client_quad()).is_none());
}

#[test]
fn reply_frame_bytes() {
    let seg = Segment {
        src_addr: SERVER,
        dst_addr: CLIENT,
        src_port: 80,
        dst_port: 40000,
        seq: 0x0102_0304,
        ack_num: 1001,
        window: 10,
        syn: true,
        ack: true,
    };
    let f = seg.to_frame();
    assert_eq!(f.len(), 44);
    assert_eq!(&f[..4], &[0, 0, 0x08, 0x00]);
    let ip = &f[4..24];
    assert_eq!(&ip[..10], &[0x45, 0, 0, 40, 0, 0, 0x40, 0, 64, 6]);
    assert_eq!(&ip[12..16], &SERVER.to_be_bytes());
    assert_eq!(&ip[16..20], &CLIENT.to_be_bytes());
    assert_eq!(u16::from_be_bytes([ip[10], ip[11]]), ipv4_checksum(ip));
    let tcp = &f[24..];
    assert_eq!(&tcp[..16], &[0, 80, 0x9c, 0x40, 1, 2, 3, 4, 0, 0, 0x03, 0xe9, 0x50, 0x12, 0, 10]);
    assert_eq!(&tcp[18..], &[0, 0]);
    let checksum = u16::from_be_bytes([tcp[16], tcp[17]]);
    assert_ne!(checksum, 0);
    assert_eq!(checksum, tcp_checksum(SERVER, CLIENT, tcp));
}

#[test]
fn old_segment_without_ack_is_reacked() {
    let mut conn = established(100, 100, 1000, 999, 100);
    let before = conn;
    let reply = conn.on_packet(&ip_in(), &tcp_in(900, 0, false, false, 50), b"old").unwrap();
    assert_eq!(conn, before);
    assert_eq!((reply.seq, reply.ack_num), (100, 1000));
    assert!(!reply.syn && reply.ack);
}

#[test]
fn syn_received_reacks_overlapping_segment() {
    let (mut conn, _) = Connection::accept(&ip_in(), &tcp_in(1000, 0, true, false, 64), &[], 5000)
        .unwrap();
    let reply = conn.on_packet(&ip_in(), &tcp_in(1000, 5000, false, true, 64), b"hello").unwrap();
    assert_eq!(conn.state, State::SynRcvd);
    assert_eq!(conn.recv.nxt, 1001);
    assert_eq!((reply.seq, reply.ack_num), (5001, 1001));
}

#[test]
fn removed_connection_is_forgotten() {
    let mut table = ConnectionTable::new();
    table.on_frame(&frame((CLIENT, 40000), (SERVER, 80), 1000, 0, SYN, 4096, &[]), 5000).unwrap();
    table.on_frame(&frame((CLIENT, 40001), (SERVER, 80), 2000, 0, SYN, 4096, &[]), 6000).unwrap();
    let removed = table.remove(&client_quad()).unwrap();
    assert_eq!(removed.recv.irs, 1000);
    assert!(table.get(&client_quad()).is_none());
    assert!(table.remove(&client_quad()).is_none());
    let other = Quad { src: Endpoint { addr: CLIENT, port: 40001 }, ..client_quad() };
    assert_eq!(table.get(&other).unwrap().recv.irs, 2000);
    let ack = frame((CLIENT, 40000), (SERVER, 80), 1001, 5001, ACK, 4096, &[]);
    assert_eq!(table.on_frame(&ack, 7).unwrap(), None);
    assert!(table.get(&client_quad()).is_none());
}

#[test]
fn table_keys_keep_fields_apart() {
    let q = client_quad();
    assert_eq!(
        key_for(&q),
        (u128::from(CLIENT) << 64) | (40000u128 << 48) | (u128::from(SERVER) << 16) | 80
    );
    let swapped = Quad { src: q.dst, dst: q.src };
    assert_ne!(key_for(&q), key_for(&swapped));
    let ports_swapped = Quad {
        src: Endpoint { addr: CLIENT, port: 80 },
        dst: Endpoint { addr: SERVER, port: 40000 },
    };
    assert_ne!(key_for(&q), key_for(&ports_swapped));
}

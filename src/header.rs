//! IPv4 and TCP header fields as plain values, and their wire form.
//!
//! Parsing and serialisation are done by etherparse; the contracts below say
//! which bytes each field comes from or goes to.
use vstd::prelude::*;

verus! {

/// Big-endian 16-bit value at `b[i..i + 2]`.
pub open spec fn be16_at(b: Seq<u8>, i: int) -> u16 {
    (b[i] as nat * 0x100 + b[i + 1] as nat) as u16
}

/// Big-endian 32-bit value at `b[i..i + 4]`.
pub open spec fn be32_at(b: Seq<u8>, i: int) -> u32 {
    (b[i] as nat * 0x100_0000 + b[i + 1] as nat * 0x1_0000 + b[i + 2] as nat * 0x100
        + b[i + 3] as nat) as u32
}

/// The two big-endian bytes of `v`.
pub open spec fn be16_bytes(v: u16) -> Seq<u8> {
    seq![(v / 0x100) as u8, (v % 0x100) as u8]
}

/// The four big-endian bytes of `v`.
pub open spec fn be32_bytes(v: u32) -> Seq<u8> {
    seq![
        (v / 0x100_0000) as u8,
        ((v / 0x1_0000) % 0x100) as u8,
        ((v / 0x100) % 0x100) as u8,
        (v % 0x100) as u8,
    ]
}

/// The fields of an IPv4 header that the engine reads.
#[derive(Clone, Copy, Debug, PartialEq, Eq)]
pub struct Ipv4Info {
    pub source: u32,
    pub destination: u32,
    pub protocol: u8,
    /// Length of the header itself, options included, in bytes.
    pub header_len: usize,
}

/// The fields of a TCP header that the engine reads.
#[derive(Clone, Copy, Debug, PartialEq, Eq)]
pub struct TcpInfo {
    pub source_port: u16,
    pub destination_port: u16,
    pub sequence_number: u32,
    pub acknowledgment_number: u32,
    pub window_size: u16,
    pub syn: bool,
    pub ack: bool,
    pub fin: bool,
    pub rst: bool,
    /// Length of the header itself, options included, in bytes.
    pub header_len: usize,
}

/// `b` starts with a well-formed IPv4 header: at least 20 bytes, version 4,
/// a header length of at least five words that `b` holds in full, and a total
/// length that covers the header.
pub open spec fn ipv4_header_ok(b: Seq<u8>) -> bool {
    &&& b.len() >= 20
    &&& b[0] / 16 == 4
    &&& b[0] % 16 >= 5
    &&& b.len() >= (b[0] % 16) * 4
    &&& be16_at(b, 2) >= (b[0] % 16) * 4
}

/// The fields of the IPv4 header at the start of `b`.
pub open spec fn ipv4_info_of(b: Seq<u8>) -> Ipv4Info {
    Ipv4Info {
        source: be32_at(b, 12),
        destination: be32_at(b, 16),
        protocol: b[9],
        header_len: ((b[0] % 16) * 4) as usize,
    }
}

/// `b` starts with a well-formed TCP header: at least 20 bytes and a data
/// offset of at least five words that `b` holds in full.
pub open spec fn tcp_header_ok(b: Seq<u8>) -> bool {
    &&& b.len() >= 20
    &&& b[12] / 16 >= 5
    &&& b.len() >= (b[12] / 16) * 4
}

/// Whether bit `k` (0 = least significant) of `v` is set.
pub open spec fn bit_set(v: u8, k: nat) -> bool {
    (v as nat / pow2(k)) % 2 == 1
}

pub open spec fn pow2(k: nat) -> nat
    decreases k,
{
    if k == 0 {
        1
    } else {
        2 * pow2((k - 1) as nat)
    }
}

/// The fields of the TCP header at the start of `b`.
pub open spec fn tcp_info_of(b: Seq<u8>) -> TcpInfo {
    TcpInfo {
        source_port: be16_at(b, 0),
        destination_port: be16_at(b, 2),
        sequence_number: be32_at(b, 4),
        acknowledgment_number: be32_at(b, 8),
        window_size: be16_at(b, 14),
        fin: bit_set(b[13], 0),
        syn: bit_set(b[13], 1),
        rst: bit_set(b[13], 2),
        ack: bit_set(b[13], 4),
        header_len: ((b[12] / 16) * 4) as usize,
    }
}

/// Parses the IPv4 header that starts at `b[start]`.
///
/// Relies on etherparse's `Ipv4HeaderSlice::from_slice`, which accepts exactly
/// the headers described by `ipv4_header_ok`, and on its getters `source`,
/// `destination`, `protocol` and `slice`, which read the bytes named in
/// `ipv4_info_of`.
#[verifier::external_body]
pub(crate) fn parse_ipv4_at(b: &[u8], start: usize) -> (r: Option<Ipv4Info>)
    requires
        start <= b@.len(),
    ensures
        r.is_some() == ipv4_header_ok(b@.subrange(start as int, b@.len() as int)),
        r.is_some() ==> r.unwrap() == ipv4_info_of(b@.subrange(start as int, b@.len() as int)),
{
    match etherparse::Ipv4HeaderSlice::from_slice(&b[start..]) {
        Ok(h) => Some(Ipv4Info {
            source: u32::from_be_bytes(h.source()),
            destination: u32::from_be_bytes(h.destination()),
            protocol: h.protocol(),
            header_len: h.slice().len(),
        }),
        Err(_) => None,
    }
}

/// Parses the TCP header that starts at `b[start]`.
///
/// Relies on etherparse's `TcpHeaderSlice::from_slice`, which accepts exactly
/// the headers described by `tcp_header_ok`, and on its getters, which read
/// the bytes named in `tcp_info_of`.
#[verifier::external_body]
pub(crate) fn parse_tcp_at(b: &[u8], start: usize) -> (r: Option<TcpInfo>)
    requires
        start <= b@.len(),
    ensures
        r.is_some() == tcp_header_ok(b@.subrange(start as int, b@.len() as int)),
        r.is_some() ==> r.unwrap() == tcp_info_of(b@.subrange(start as int, b@.len() as int)),
{
    match etherparse::TcpHeaderSlice::from_slice(&b[start..]) {
        Ok(h) => Some(TcpInfo {
            source_port: h.source_port(),
            destination_port: h.destination_port(),
            sequence_number: h.sequence_number(),
            acknowledgment_number: h.acknowledgment_number(),
            window_size: h.window_size(),
            syn: h.syn(),
            ack: h.ack(),
            fin: h.fin(),
            rst: h.rst(),
            header_len: h.slice().len(),
        }),
        Err(_) => None,
    }
}

/// The IPv4 header fields that the engine writes before the checksum is
/// filled in: no options, no fragmentation ("don't fragment" set), and a zero
/// checksum field.
pub open spec fn ipv4_fields(payload_len: u16, ttl: u8, protocol: u8, src: u32, dst: u32) -> Seq<u8> {
    seq![0x45u8, 0u8] + be16_bytes((payload_len + 20) as u16) + seq![0u8, 0u8, 0x40u8, 0u8, ttl, protocol, 0u8, 0u8]
        + be32_bytes(src) + be32_bytes(dst)
}

/// The IPv4 header checksum of the header `h`, written with a zero checksum
/// field.
pub uninterp spec fn ipv4_checksum_of(h: Seq<u8>) -> u16;

/// A serialised 20-byte IPv4 header with its checksum filled in.
pub open spec fn ipv4_header_bytes(payload_len: u16, ttl: u8, protocol: u8, src: u32, dst: u32) -> Seq<u8> {
    let f = ipv4_fields(payload_len, ttl, protocol, src, dst);
    f.subrange(0, 10) + be16_bytes(ipv4_checksum_of(f)) + f.subrange(12, 20)
}

/// The TCP flag byte with only SYN and ACK possibly set.
pub open spec fn tcp_flag_byte(syn: bool, ack: bool) -> u8 {
    ((if syn { 2u8 } else { 0u8 }) + (if ack { 16u8 } else { 0u8 })) as u8
}

/// The fields of a 20-byte TCP header without options, with zero checksum
/// and urgent pointer.
pub open spec fn tcp_fields(
    src_port: u16,
    dst_port: u16,
    seq: u32,
    ack_num: u32,
    window: u16,
    syn: bool,
    ack: bool,
) -> Seq<u8> {
    be16_bytes(src_port) + be16_bytes(dst_port) + be32_bytes(seq) + be32_bytes(ack_num) + seq![
        0x50u8,
        tcp_flag_byte(syn, ack),
    ] + be16_bytes(window) + seq![0u8, 0u8, 0u8, 0u8]
}

/// The TCP checksum over `pseudo`: the source and destination IPv4
/// addresses followed by a payload-free TCP header whose checksum field is
/// zero.
pub uninterp spec fn tcp_checksum_of(pseudo: Seq<u8>) -> u16;

/// A serialised 20-byte TCP header without options and with the given
/// checksum.
pub open spec fn tcp_header_bytes(
    src_port: u16,
    dst_port: u16,
    seq: u32,
    ack_num: u32,
    window: u16,
    syn: bool,
    ack: bool,
    checksum: u16,
) -> Seq<u8> {
    let f = tcp_fields(src_port, dst_port, seq, ack_num, window, syn, ack);
    f.subrange(0, 16) + be16_bytes(checksum) + f.subrange(18, 20)
}

/// Serialises an IPv4 header for a payload of `payload_len` bytes.
///
/// Relies on etherparse's `Ipv4Header::new` and `Ipv4Header::write`: `new`
/// sets no options, "don't fragment", and zero identification, DSCP and ECN;
/// `write` lays the fields out as `ipv4_fields` does and fills in the header
/// checksum. It fails only on a payload length above 65515, which `requires`
/// leaves out.
#[verifier::external_body]
pub(crate) fn write_ipv4_header(payload_len: u16, ttl: u8, protocol: u8, src: u32, dst: u32) -> (r: Vec<u8>)
    requires
        payload_len <= 65515,
    ensures
        r@ == ipv4_header_bytes(payload_len, ttl, protocol, src, dst),
        r@.subrange(10, 12) == be16_bytes(
            ipv4_checksum_of(ipv4_fields(payload_len, ttl, protocol, src, dst)),
        ),
{
    let h = etherparse::Ipv4Header::new(payload_len, ttl, protocol, src.to_be_bytes(), dst.to_be_bytes());
    let mut out: Vec<u8> = Vec::new();
    let _ = h.write(&mut out);
    out
}

/// The checksum of a payload-free TCP header sent from `src` to `dst`.
///
/// Relies on etherparse's `TcpHeader::calc_checksum_ipv4_raw`, which sums
/// the IPv4 pseudo header and the header fields other than the checksum. It
/// fails only when header and payload exceed 65535 bytes, which a 20-byte
/// header without payload never does.
#[verifier::external_body]
pub(crate) fn tcp_checksum(
    src: u32,
    dst: u32,
    src_port: u16,
    dst_port: u16,
    seq: u32,
    ack_num: u32,
    window: u16,
    syn: bool,
    ack: bool,
) -> (r: u16)
    ensures
        r == tcp_checksum_of(
            be32_bytes(src) + be32_bytes(dst) + tcp_fields(
                src_port,
                dst_port,
                seq,
                ack_num,
                window,
                syn,
                ack,
            ),
        ),
{
    let mut h = etherparse::TcpHeader::new(src_port, dst_port, seq, window);
    h.acknowledgment_number = ack_num;
    h.syn = syn;
    h.ack = ack;
    match h.calc_checksum_ipv4_raw(src.to_be_bytes(), dst.to_be_bytes(), &[]) {
        Ok(c) => c,
        Err(_) => 0,
    }
}

/// Serialises a TCP header without options.
///
/// Relies on etherparse's `TcpHeader::new`, which sets a data offset of five
/// words and clears every flag, the checksum and the urgent pointer, and on
/// `TcpHeader::write`, which lays the fields out as `tcp_header_bytes` does.
#[verifier::external_body]
pub(crate) fn write_tcp_header(
    src_port: u16,
    dst_port: u16,
    seq: u32,
    ack_num: u32,
    window: u16,
    syn: bool,
    ack: bool,
    checksum: u16,
) -> (r: Vec<u8>)
    ensures
        r@ == tcp_header_bytes(src_port, dst_port, seq, ack_num, window, syn, ack, checksum),
{
    let mut h = etherparse::TcpHeader::new(src_port, dst_port, seq, window);
    h.acknowledgment_number = ack_num;
    h.syn = syn;
    h.ack = ack;
    h.checksum = checksum;
    let mut out: Vec<u8> = Vec::new();
    let _ = h.write(&mut out);
    out
}

} // verus!

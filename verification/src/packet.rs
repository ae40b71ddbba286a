//! IPv4 and TCP headers as plain values, and the two calls into
//! `etherparse` that decode and encode them.
use vstd::prelude::*;
use etherparse::{IpHeader, PacketBuilder, PacketHeaders, TransportHeader};

verus! {

/// The IPv4 header fields that the stack reads.
#[derive(Clone, Copy, Debug, PartialEq, Eq)]
pub struct Ipv4Info {
    pub source: [u8; 4],
    pub destination: [u8; 4],
    pub protocol: u8,
    /// Length of the header including its options, in bytes.
    pub header_len: usize,
    /// Total length field minus the header length.
    pub payload_len: u16,
}

/// The TCP header fields that the stack reads.
#[derive(Clone, Copy, Debug, PartialEq, Eq)]
pub struct TcpInfo {
    pub source_port: u16,
    pub destination_port: u16,
    pub sequence_number: u32,
    pub acknowledgment_number: u32,
    /// Length of the header including its options, in bytes.
    pub header_len: u16,
    pub fin: bool,
    pub syn: bool,
    pub psh: bool,
    pub ack: bool,
    pub window_size: u16,
}

/// A decoded IPv4 packet: its header, and its TCP header when it carries TCP.
#[derive(Clone, Copy, Debug, PartialEq, Eq)]
pub struct Ipv4Packet {
    pub ip: Ipv4Info,
    pub tcp: Option<TcpInfo>,
}

/// Big-endian 16-bit value at `i`.
pub open spec fn be16(b: Seq<u8>, i: int) -> int {
    b[i] * 0x100 + b[i + 1]
}

/// Big-endian 32-bit value at `i`.
pub open spec fn be32(b: Seq<u8>, i: int) -> int {
    b[i] * 0x100_0000 + b[i + 1] * 0x1_0000 + b[i + 2] * 0x100 + b[i + 3]
}

/// IPv4 header length in bytes, from the IHL nibble.
pub open spec fn ihl_len(b: Seq<u8>) -> int {
    (b[0] % 16) * 4
}

/// TCP header length in bytes, from the data-offset nibble.
pub open spec fn data_offset_len(t: Seq<u8>) -> int {
    (t[12] / 16) * 4
}

/// The flag whose bit has value `weight` (1, 2, 4, ...) is set in `x`.
pub open spec fn flag(x: u8, weight: int) -> bool {
    (x as int / weight) % 2 == 1
}

/// The slice holds a well-formed IPv4 header (without options checks).
pub open spec fn ipv4_header_ok(b: Seq<u8>) -> bool {
    &&& b.len() >= 20
    &&& b[0] / 16 == 4
    &&& b[0] % 16 >= 5
    &&& b.len() >= ihl_len(b)
    &&& be16(b, 2) >= ihl_len(b)
}

/// The slice holds a well-formed TCP header.
pub open spec fn tcp_header_ok(t: Seq<u8>) -> bool {
    &&& t.len() >= 20
    &&& t[12] / 16 >= 5
    &&& t.len() >= data_offset_len(t)
}

/// The bytes after the IPv4 header hold the transport header it announces
/// (TCP for protocol 6, UDP for protocol 17, nothing for the others).
pub open spec fn transport_ok(protocol: u8, rest: Seq<u8>) -> bool {
    &&& protocol == 6 ==> tcp_header_ok(rest)
    &&& protocol == 17 ==> rest.len() >= 8
}

/// The bytes decode as an IPv4 packet.
pub open spec fn ipv4_packet_ok(b: Seq<u8>) -> bool {
    ipv4_header_ok(b) && transport_ok(b[9], b.skip(ihl_len(b)))
}

/// `ip` holds the IPv4 header fields of `b`.
pub open spec fn ipv4_fields(b: Seq<u8>, ip: Ipv4Info) -> bool {
    &&& ip.source@ == b.subrange(12, 16)
    &&& ip.destination@ == b.subrange(16, 20)
    &&& ip.protocol == b[9]
    &&& ip.header_len == ihl_len(b)
    &&& ip.payload_len == be16(b, 2) - ihl_len(b)
}

/// `t` holds the TCP header fields of `s`.
pub open spec fn tcp_fields(s: Seq<u8>, t: TcpInfo) -> bool {
    &&& t.source_port == be16(s, 0)
    &&& t.destination_port == be16(s, 2)
    &&& t.sequence_number == be32(s, 4)
    &&& t.acknowledgment_number == be32(s, 8)
    &&& t.header_len == data_offset_len(s)
    &&& t.fin == flag(s[13], 1)
    &&& t.syn == flag(s[13], 2)
    &&& t.psh == flag(s[13], 8)
    &&& t.ack == flag(s[13], 16)
    &&& t.window_size == be16(s, 14)
}

/// `p` is what the bytes `b` decode to.
pub open spec fn decodes_to(b: Seq<u8>, p: Ipv4Packet) -> bool {
    &&& ipv4_fields(b, p.ip)
    &&& (p.ip.protocol == 6 <==> p.tcp is Some)
    &&& (p.tcp matches Some(t) ==> tcp_fields(b.skip(p.ip.header_len as int), t))
}

/// Decodes an IPv4 packet with `etherparse::PacketHeaders::from_ip_slice`.
///
/// The contract states what that function's source does on the IPv4 path:
/// it succeeds exactly when the IPv4 header and the transport header that
/// the protocol field announces fit their checks, and the fields come from
/// their fixed offsets. IPv6 input, which `etherparse` also accepts, and
/// every error give `None`.
#[verifier::external_body]
pub(crate) fn read_ipv4_packet(bytes: &[u8]) -> (r: Option<Ipv4Packet>)
    ensures
        r is Some <==> ipv4_packet_ok(bytes@),
        r matches Some(p) ==> decodes_to(bytes@, p),
{
    match PacketHeaders::from_ip_slice(bytes) {
        Ok(PacketHeaders { ip: Some(IpHeader::Version4(ip)), transport, .. }) => Some(Ipv4Packet {
            ip: Ipv4Info { source: ip.source, destination: ip.destination, protocol: ip.protocol, header_len: ip.header_len(), payload_len: ip.payload_len },
            tcp: match transport {
                Some(TransportHeader::Tcp(t)) => Some(TcpInfo { source_port: t.source_port, destination_port: t.destination_port, sequence_number: t.sequence_number, acknowledgment_number: t.acknowledgment_number, header_len: t.header_len(), fin: t.fin, syn: t.syn, psh: t.psh, ack: t.ack, window_size: t.window_size }),
                _ => None,
            },
        }),
        _ => None,
    }
}

/// The bytes that `etherparse::PacketBuilder` writes for an IPv4 packet with
/// one TCP segment built from these values (checksums included).
pub uninterp spec fn tcp_segment_bytes(
    source: Seq<u8>,
    destination: Seq<u8>,
    ttl: u8,
    source_port: u16,
    destination_port: u16,
    seq: u32,
    window: u16,
    ack_number: u32,
    syn: bool,
    fin: bool,
    payload: Seq<u8>,
) -> Seq<u8>;

/// Largest payload that fits one IPv4 packet behind a 20-byte IPv4 header
/// and a 20-byte TCP header.
pub const MAX_SEGMENT_PAYLOAD: usize = 65495;

/// The layout of a built segment: every byte but the two checksums is fixed
/// by the values the segment was built from.
pub open spec fn segment_layout(
    b: Seq<u8>,
    source: Seq<u8>,
    destination: Seq<u8>,
    ttl: u8,
    source_port: u16,
    destination_port: u16,
    seq: u32,
    window: u16,
    ack_number: u32,
    syn: bool,
    fin: bool,
    payload: Seq<u8>,
) -> bool {
    &&& b.len() == 40 + payload.len()
    &&& b[0] == 0x45
    &&& b[1] == 0
    &&& be16(b, 2) == 40 + payload.len()
    &&& be16(b, 4) == 0
    &&& b[6] == 0x40
    &&& b[7] == 0
    &&& b[8] == ttl
    &&& b[9] == 6
    &&& b.subrange(12, 16) == source
    &&& b.subrange(16, 20) == destination
    &&& be16(b, 20) == source_port
    &&& be16(b, 22) == destination_port
    &&& be32(b, 24) == seq
    &&& be32(b, 28) == ack_number
    &&& b[32] == 0x50
    &&& b[33] == 0x10 + (if syn { 2int } else { 0int }) + (if fin { 1int } else { 0int })
    &&& be16(b, 34) == window
    &&& be16(b, 38) == 0
    &&& b.skip(40) == payload
}

/// Sum of the 16-bit big-endian words of `b`, an odd last byte padded with
/// a zero byte.
pub open spec fn word_sum(b: Seq<u8>) -> int
    decreases b.len(),
{
    if b.len() == 0 {
        0
    } else if b.len() == 1 {
        b[0] * 0x100
    } else {
        be16(b, 0) + word_sum(b.skip(2))
    }
}

/// The words of `b` add up, in ones' complement, to 0xFFFF: `b` carries a
/// correct Internet checksum. (The ones' complement sum of a positive total
/// is 0xFFFF exactly when the total is a multiple of 0xFFFF.)
pub open spec fn checksum_ok(b: Seq<u8>) -> bool {
    word_sum(b) > 0 && word_sum(b) % 0xFFFF == 0
}

/// The TCP pseudo header of an IPv4 packet with a 20-byte header: source
/// and destination addresses, protocol 6, and the TCP length.
pub open spec fn tcp_pseudo_header(b: Seq<u8>) -> Seq<u8> {
    b.subrange(12, 20) + seq![0u8, 6u8, ((b.len() - 20) / 0x100) as u8, ((b.len() - 20) % 0x100) as u8]
}

/// Both checksums of a built segment are correct: the IPv4 header's, and the
/// TCP checksum over the pseudo header, the TCP header and the data.
pub open spec fn segment_checksums_ok(b: Seq<u8>) -> bool {
    checksum_ok(b.subrange(0, 20)) && checksum_ok(tcp_pseudo_header(b) + b.skip(20))
}

/// Builds an IPv4 packet holding one TCP segment with the ACK flag, and SYN
/// and FIN as asked, with `etherparse::PacketBuilder::ipv4(..).tcp(..).ack(..)`,
/// then `syn()` / `fin()`, then `write`.
///
/// The contract names the whole result and states the layout that the
/// builder's source writes: a 20-byte IPv4 header (don't-fragment set,
/// identification 0) and a 20-byte TCP header without options, then the
/// payload. The two checksum fields are tied to the arguments by the name
/// only; of their values the contract states what the source computes them
/// for: the complement of the folded word sum of the IPv4 header, and of the
/// pseudo header, TCP header and data, so that each checksum verifies. `write` fails only on a
/// payload above `MAX_SEGMENT_PAYLOAD`, which `requires` rules out.
#[verifier::external_body]
pub(crate) fn write_tcp_segment(
    source: [u8; 4],
    destination: [u8; 4],
    ttl: u8,
    source_port: u16,
    destination_port: u16,
    seq: u32,
    window: u16,
    ack_number: u32,
    syn: bool,
    fin: bool,
    payload: &[u8],
) -> (r: Vec<u8>)
    requires
        payload.len() <= MAX_SEGMENT_PAYLOAD,
    ensures
        r@ == tcp_segment_bytes(source@, destination@, ttl, source_port, destination_port, seq, window, ack_number, syn, fin, payload@),
        segment_layout(r@, source@, destination@, ttl, source_port, destination_port, seq, window, ack_number, syn, fin, payload@),
        segment_checksums_ok(r@),
{
    let mut builder = PacketBuilder::ipv4(source, destination, ttl).tcp(source_port, destination_port, seq, window).ack(ack_number);
    if syn {
        builder = builder.syn();
    }
    if fin {
        builder = builder.fin();
    }
    let mut out = Vec::<u8>::with_capacity(payload.len());
    builder.write(&mut out, payload).unwrap();
    out
}

/// The packet that a segment built from these values reads back as.
pub open spec fn segment_packet(
    source: [u8; 4],
    destination: [u8; 4],
    source_port: u16,
    destination_port: u16,
    seq: u32,
    window: u16,
    ack_number: u32,
    syn: bool,
    fin: bool,
    payload_len: nat,
) -> Ipv4Packet {
    Ipv4Packet {
        ip: Ipv4Info {
            source,
            destination,
            protocol: 6,
            header_len: 20,
            payload_len: (20 + payload_len) as u16,
        },
        tcp: Some(
            TcpInfo {
                source_port,
                destination_port,
                sequence_number: seq,
                acknowledgment_number: ack_number,
                header_len: 20,
                fin,
                syn,
                psh: false,
                ack: true,
                window_size: window,
            },
        ),
    }
}

/// What is written is read back: bytes laid out as a built segment decode as
/// an IPv4 packet whose headers carry exactly the values it was built from.
pub proof fn lemma_segment_reads_back(
    b: Seq<u8>,
    source: [u8; 4],
    destination: [u8; 4],
    ttl: u8,
    source_port: u16,
    destination_port: u16,
    seq: u32,
    window: u16,
    ack_number: u32,
    syn: bool,
    fin: bool,
    payload: Seq<u8>,
)
    requires
        payload.len() <= MAX_SEGMENT_PAYLOAD,
        segment_layout(b, source@, destination@, ttl, source_port, destination_port, seq, window, ack_number, syn, fin, payload),
    ensures
        ipv4_packet_ok(b),
        decodes_to(b, segment_packet(source, destination, source_port, destination_port, seq, window, ack_number, syn, fin, payload.len())),
{
    let t = b.skip(20);
    assert(t[12] == b[32]);
    assert(t[13] == b[33]);
    assert(be16(t, 0) == be16(b, 20));
    assert(be16(t, 2) == be16(b, 22));
    assert(be32(t, 4) == be32(b, 24));
    assert(be32(t, 8) == be32(b, 28));
    assert(be16(t, 14) == be16(b, 34));
}

} // verus!

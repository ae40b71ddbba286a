//! The stateless responder: each packet is answered on its own, without a
//! connection table. A ping gets its echo reply; a TCP segment carrying SYN,
//! FIN or PSH gets one ACK (with the same SYN/FIN flags) built from that
//! segment alone.
use vstd::prelude::*;
use crate::engine::{echo_reply, echo_request};
use crate::packet::{
    decodes_to, flag, segment_checksums_ok, ihl_len, ipv4_fields, ipv4_packet_ok, read_ipv4_packet, segment_packet,
    tcp_fields, tcp_segment_bytes, write_tcp_segment, Ipv4Info, Ipv4Packet, TcpInfo,
};
use crate::tcp::{seq_add, RecvSequenceSpace, SendSequenceSpace, SocketAddr4, TTL};

verus! {

/// The state a segment leaves a connection in.
#[derive(Clone, Copy, Debug, PartialEq, Eq)]
pub enum State {
    SynRcvd,
    Estab,
}

/// A connection as one segment describes it, with that segment's header.
#[derive(Clone, Copy, Debug, PartialEq, Eq)]
pub struct Connection {
    pub state: State,
    pub send: SendSequenceSpace,
    pub recv: RecvSequenceSpace,
    pub src: SocketAddr4,
    pub dst: SocketAddr4,
    pub tcph: TcpInfo,
}

/// A packet the responder answers.
#[derive(Debug)]
pub enum FilterPacket {
    /// An ICMP echo request, whole.
    Ping(Vec<u8>),
    /// A TCP segment with SYN, FIN or PSH.
    Tcp(Connection),
}

/// The answer to one packet: the packet to send to the device, and whether
/// the listener is to be told of a new connection (for a SYN).
#[derive(Debug, PartialEq, Eq)]
pub struct Response {
    pub reply: Vec<u8>,
    pub accept: bool,
}

/// The data that answers a segment with PSH: the bytes of "hello\n".
pub const HELLO: [u8; 6] = [104, 101, 108, 108, 111, 10];

/// The stateless responder.
pub struct Libtcp;

/// The receive pointer after `t`: one past a segment without PSH (a SYN or a
/// FIN), else past its data (IPv4 payload length less the TCP header).
pub open spec fn acknowledged(ip: Ipv4Info, t: TcpInfo) -> u32 {
    if !t.psh {
        seq_add(t.sequence_number, 1)
    } else {
        ((t.sequence_number + ip.payload_len - t.header_len) % 0x1_0000_0000) as u32
    }
}

/// The connection that one segment describes.
pub open spec fn segment_connection(ip: Ipv4Info, t: TcpInfo) -> Connection {
    Connection {
        state: if t.ack { State::Estab } else { State::SynRcvd },
        send: SendSequenceSpace {
            iss: 0,
            una: 0,
            nxt: t.acknowledgment_number,
            wnd: 1024,
            up: false,
            wl1: 0,
            wl2: 0,
        },
        recv: RecvSequenceSpace {
            irs: t.sequence_number,
            nxt: acknowledged(ip, t),
            wnd: t.window_size,
            up: false,
        },
        src: SocketAddr4 { ip: ip.destination, port: t.destination_port },
        dst: SocketAddr4 { ip: ip.source, port: t.source_port },
        tcph: t,
    }
}

/// The segment that `c` answers with, carrying `payload`.
pub open spec fn reply_segment(c: Connection, payload: Seq<u8>) -> Seq<u8> {
    tcp_segment_bytes(
        c.src.ip@,
        c.dst.ip@,
        TTL,
        c.src.port,
        c.dst.port,
        c.send.nxt,
        c.send.wnd,
        c.recv.nxt,
        c.tcph.syn,
        c.tcph.fin,
        payload,
    )
}

/// The bytes hold a TCP segment that the responder answers.
pub open spec fn answered_tcp(b: Seq<u8>) -> bool {
    let f = b[ihl_len(b) + 13];
    ipv4_packet_ok(b) && b[9] == 6 && (flag(f, 2) || flag(f, 1) || flag(f, 8))
}

/// The inputs on which the responder indexes past the end of the packet:
/// an ICMP packet of 20 bytes.
pub open spec fn icmp_too_short(b: Seq<u8>) -> bool {
    ipv4_packet_ok(b) && b[9] == 1 && b.len() <= 20
}

/// The stateless answer to a SYN comes from the packet's destination to its
/// source, acknowledges the SYN's sequence number plus one, and starts its
/// own sequence at the peer's acknowledgment number.
pub proof fn lemma_syn_answer_reverses(ip: Ipv4Info, t: TcpInfo)
    requires
        t.syn,
        !t.psh,
    ensures
        segment_connection(ip, t).src == (SocketAddr4 { ip: ip.destination, port: t.destination_port }),
        segment_connection(ip, t).dst == (SocketAddr4 { ip: ip.source, port: t.source_port }),
        segment_connection(ip, t).recv.nxt == seq_add(t.sequence_number, 1),
        segment_connection(ip, t).send.nxt == t.acknowledgment_number,
        segment_connection(ip, t).tcph.syn,
{
}

/// The answer to a segment acknowledges what the segment carries: its
/// sequence number plus one for a SYN or FIN without PSH, plus its data
/// length (IPv4 payload less the TCP header) for a segment with PSH, modulo
/// 2^32. The segment's own acknowledgment number plays no part.
pub proof fn lemma_answer_acknowledges_segment(ip: Ipv4Info, t: TcpInfo, t2: TcpInfo)
    requires
        t2 == (TcpInfo { acknowledgment_number: t2.acknowledgment_number, ..t }),
    ensures
        t.psh ==> segment_connection(ip, t).recv.nxt == (t.sequence_number + ip.payload_len
            - t.header_len) % 0x1_0000_0000,
        !t.psh ==> segment_connection(ip, t).recv.nxt == (t.sequence_number + 1) % 0x1_0000_0000,
        segment_connection(ip, t2).recv == segment_connection(ip, t).recv,
{
}

impl Connection {
    /// The connection that one segment describes: the local end at its
    /// destination, the peer at its source, sending from the peer's
    /// acknowledgment number and acknowledging the segment.
    pub fn new(iph: &Ipv4Info, tcph: &TcpInfo) -> (c: Connection)
        ensures
            c == segment_connection(*iph, *tcph),
            tcph.psh ==> c.recv.nxt == (tcph.sequence_number + iph.payload_len - tcph.header_len)
                % 0x1_0000_0000,
            !tcph.psh ==> c.recv.nxt == (tcph.sequence_number + 1) % 0x1_0000_0000,
    {
        let iss: u32 = 0;
        let wnd: u16 = 1024;
        let ack = if !tcph.psh {
            tcph.sequence_number.wrapping_add(1)
        } else {
            tcph.sequence_number.wrapping_add(iph.payload_len as u32).wrapping_sub(
                tcph.header_len as u32,
            )
        };
        let state = if tcph.ack {
            State::Estab
        } else {
            State::SynRcvd
        };
        Connection {
            state: state,
            send: SendSequenceSpace { iss, una: iss, nxt: tcph.acknowledgment_number, wnd: wnd, up: false, wl1: 0, wl2: 0 },
            recv: RecvSequenceSpace { irs: tcph.sequence_number, nxt: ack, wnd: tcph.window_size, up: false },
            src: SocketAddr4 { ip: iph.destination, port: tcph.destination_port },
            dst: SocketAddr4 { ip: iph.source, port: tcph.source_port },
            tcph: *tcph,
        }
    }

    /// The ACK that answers the connection's segment, with its SYN and FIN
    /// flags, carrying `payload`.
    pub fn gen_packet(&mut self, payload: &[u8]) -> (r: Vec<u8>)
        requires
            payload.len() <= crate::packet::MAX_SEGMENT_PAYLOAD,
        ensures
            *final(self) == *old(self),
            r@ == reply_segment(*old(self), payload@),
            segment_checksums_ok(r@),
            ipv4_packet_ok(r@),
            decodes_to(
                r@,
                segment_packet(
                    old(self).src.ip,
                    old(self).dst.ip,
                    old(self).src.port,
                    old(self).dst.port,
                    old(self).send.nxt,
                    old(self).send.wnd,
                    old(self).recv.nxt,
                    old(self).tcph.syn,
                    old(self).tcph.fin,
                    payload@.len(),
                ),
            ),
    {
        let r = write_tcp_segment(
            self.src.ip,
            self.dst.ip,
            TTL,
            self.src.port,
            self.dst.port,
            self.send.nxt,
            self.send.wnd,
            self.recv.nxt,
            self.tcph.syn,
            self.tcph.fin,
            payload,
        );
        proof {
            crate::packet::lemma_segment_reads_back(
                r@,
                self.src.ip,
                self.dst.ip,
                TTL,
                self.src.port,
                self.dst.port,
                self.send.nxt,
                self.send.wnd,
                self.recv.nxt,
                self.tcph.syn,
                self.tcph.fin,
                payload@,
            );
        }
        r
    }
}

impl Libtcp {
    /// The connection that a TCP segment with SYN, FIN or PSH describes;
    /// `None` for anything else.
    pub fn filter_with_tcp(bytes: &[u8]) -> (r: Option<Connection>)
        ensures
            r is Some <==> answered_tcp(bytes@),
            r matches Some(c) ==> tcp_fields(bytes@.skip(ihl_len(bytes@)), c.tcph) && exists|
                ip: Ipv4Info,
            | #[trigger] ipv4_fields(bytes@, ip) && c == segment_connection(ip, c.tcph),
    {
        let parsed = read_ipv4_packet(bytes);
        if let Some(Ipv4Packet { ip, tcp }) = parsed {
            if ip.protocol == 6 {
                let tcph = match tcp {
                    Some(t) => t,
                    None => { return None; },
                };
                proof {
                    assert(bytes@.skip(ihl_len(bytes@))[13] == bytes@[ihl_len(bytes@) + 13]);
                }
                if tcph.syn || tcph.fin || tcph.psh {
                    let c = Connection::new(&ip, &tcph);
                    assert(ipv4_fields(bytes@, ip));
                    return Some(c);
                }
            }
        }
        None
    }

    /// The packet itself when it is an ICMP echo request; `None` for
    /// anything else.
    pub fn filter_with_icmp(bytes: Vec<u8>) -> (r: Option<Vec<u8>>)
        requires
            !icmp_too_short(bytes@),
        ensures
            r is Some <==> echo_request(bytes@),
            r matches Some(b) ==> b@ == bytes@,
    {
        let parsed = read_ipv4_packet(bytes.as_slice());
        if let Some(Ipv4Packet { ip, tcp: _ }) = parsed {
            if ip.protocol == 1 && bytes[20] == 8 {
                return Some(bytes);
            }
        }
        None
    }

    /// The answer to a segment: an ACK carrying "hello\n" when the segment
    /// has PSH, an empty one otherwise.
    pub fn gen_tcp_packet(con: Connection) -> (r: Vec<u8>)
        ensures
            r@ == reply_segment(con, if con.tcph.psh { HELLO@ } else { Seq::empty() }),
            segment_checksums_ok(r@),
    {
        let mut con = con;
        if !con.tcph.psh {
            let empty: Vec<u8> = Vec::new();
            con.gen_packet(empty.as_slice())
        } else {
            let buf = HELLO;
            con.gen_packet(&buf)
        }
    }

    /// Sorts a packet: a TCP segment with SYN, FIN or PSH becomes its
    /// connection, an ICMP echo request stays whole, anything else is
    /// dropped.
    pub fn filter_packet(bytes: Vec<u8>) -> (r: Option<FilterPacket>)
        requires
            !icmp_too_short(bytes@),
        ensures
            !answered_tcp(bytes@) && !echo_request(bytes@) ==> r is None,
            answered_tcp(bytes@) ==> (r matches Some(FilterPacket::Tcp(c)) && tcp_fields(
                bytes@.skip(ihl_len(bytes@)),
                c.tcph,
            ) && exists|ip: Ipv4Info| #[trigger]
                ipv4_fields(bytes@, ip) && c == segment_connection(ip, c.tcph)),
            echo_request(bytes@) ==> (r matches Some(FilterPacket::Ping(b)) && b@ == bytes@),
    {
        let tcpcon = Self::filter_with_tcp(bytes.as_slice());
        let icmpbytes = Self::filter_with_icmp(bytes);
        match tcpcon {
            Some(c) => Some(FilterPacket::Tcp(c)),
            None => match icmpbytes {
                Some(b) => Some(FilterPacket::Ping(b)),
                None => None,
            },
        }
    }

    /// Answers a sorted packet: a ping with its echo reply, a segment with
    /// an empty ACK; a SYN also tells the listener of a new connection.
    pub fn respond(packet: FilterPacket) -> (r: Response)
        requires
            packet matches FilterPacket::Ping(b) ==> echo_request(b@),
        ensures
            match packet {
                FilterPacket::Ping(b) => r.reply@ == echo_reply(b@) && !r.accept,
                FilterPacket::Tcp(c) => r.reply@ == reply_segment(c, Seq::empty()) && r.accept
                    == c.tcph.syn && segment_checksums_ok(r.reply@),
            },
    {
        match packet {
            FilterPacket::Ping(bytes) => {
                let echo_bytes = crate::engine::Libtcp::gen_ping_echo(bytes);
                Response { reply: echo_bytes, accept: false }
            },
            FilterPacket::Tcp(conn) => {
                let mut conn = conn;
                let empty: Vec<u8> = Vec::new();
                let bytes = conn.gen_packet(empty.as_slice());
                Response { reply: bytes, accept: conn.tcph.syn }
            },
        }
    }

    /// Answers pings only: the echo reply to a ping, nothing for a segment.
    pub fn answer_ping(packet: FilterPacket) -> (r: Option<Vec<u8>>)
        requires
            packet matches FilterPacket::Ping(b) ==> echo_request(b@),
        ensures
            match packet {
                FilterPacket::Ping(b) => r matches Some(e) && e@ == echo_reply(b@),
                FilterPacket::Tcp(_) => r is None,
            },
    {
        match packet {
            FilterPacket::Ping(bytes) => Some(crate::engine::Libtcp::gen_ping_echo(bytes)),
            FilterPacket::Tcp(_) => None,
        }
    }
}

} // verus!

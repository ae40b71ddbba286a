//! One TCP connection on the server side: its state machine and the replies
//! it sends. The connection holds no channel: each call says what to send to
//! the device and what to hand to the application, and the caller does it.
use vstd::prelude::*;
use crate::packet::{
    decodes_to, ipv4_packet_ok, lemma_segment_reads_back, segment_checksums_ok, segment_layout,
    segment_packet,
    tcp_segment_bytes, write_tcp_segment, Ipv4Info, TcpInfo, MAX_SEGMENT_PAYLOAD,
};

verus! {

/// Connection states (a subset of RFC 793's).
#[derive(Clone, Copy, Debug, PartialEq, Eq)]
pub enum State {
    Listening,
    SynRcvd,
    Estab,
    CloseWait,
    LastAck,
    Closed,
}

impl State {
    /// How far along the connection's life a state is. `CloseWait` is never
    /// entered; it ranks beside `Estab`.
    pub open spec fn rank(self) -> int {
        match self {
            State::Listening => 0,
            State::SynRcvd => 1,
            State::Estab => 2,
            State::CloseWait => 2,
            State::LastAck => 3,
            State::Closed => 4,
        }
    }
}

/// An IPv4 socket address.
#[derive(Clone, Copy, Debug, PartialEq, Eq)]
pub struct SocketAddr4 {
    pub ip: [u8; 4],
    pub port: u16,
}

/// The table key of an address: its four octets and its port, in that
/// order, as one 48-bit number.
pub open spec fn addr_key(a: SocketAddr4) -> u64 {
    (a.ip[0] * 0x100_0000_0000 + a.ip[1] * 0x1_0000_0000 + a.ip[2] * 0x100_0000 + a.ip[3]
        * 0x1_0000 + a.port) as u64
}

/// Equal numbers written with the same base have equal last digits and
/// equal leading parts.
proof fn lemma_last_digit(q1: int, x: int, q2: int, y: int, base: int)
    by (nonlinear_arith)
    requires
        base > 0,
        0 <= x < base,
        0 <= y < base,
        q1 * base + x == q2 * base + y,
    ensures
        x == y,
        q1 == q2,
{
    if q1 < q2 {
        assert(q1 * base + base <= q2 * base);
    } else if q1 > q2 {
        assert(q2 * base + base <= q1 * base);
    }
}

/// Distinct addresses have distinct keys, so the connection table holds at
/// most one connection per peer.
pub proof fn lemma_addr_key_injective(a: SocketAddr4, b: SocketAddr4)
    requires
        addr_key(a) == addr_key(b),
    ensures
        a == b,
{
    let (a0, a1, a2, a3) = (a.ip[0] as int, a.ip[1] as int, a.ip[2] as int, a.ip[3] as int);
    let (b0, b1, b2, b3) = (b.ip[0] as int, b.ip[1] as int, b.ip[2] as int, b.ip[3] as int);
    let ha = ((a0 * 0x100 + a1) * 0x100 + a2) * 0x100 + a3;
    let hb = ((b0 * 0x100 + b1) * 0x100 + b2) * 0x100 + b3;
    assert(ha * 0x1_0000 + a.port == addr_key(a));
    assert(hb * 0x1_0000 + b.port == addr_key(b));
    lemma_last_digit(ha, a.port as int, hb, b.port as int, 0x1_0000);
    lemma_last_digit((a0 * 0x100 + a1) * 0x100 + a2, a3, (b0 * 0x100 + b1) * 0x100 + b2, b3, 0x100);
    lemma_last_digit(a0 * 0x100 + a1, a2, b0 * 0x100 + b1, b2, 0x100);
    lemma_last_digit(a0, a1, b0, b1, 0x100);
    assert(a.ip =~= b.ip);
}

impl SocketAddr4 {
    /// The address's table key.
    pub fn key(&self) -> (k: u64)
        ensures
            k == addr_key(*self),
    {
        (self.ip[0] as u64) * 0x100_0000_0000 + (self.ip[1] as u64) * 0x1_0000_0000 + (self.ip[2]
            as u64) * 0x100_0000 + (self.ip[3] as u64) * 0x1_0000 + (self.port as u64)
    }
}

/// A packet read from the device, sorted for the connection table.
#[derive(Debug)]
pub enum FilterPacket {
    /// An ICMP echo request, whole.
    Ping(Vec<u8>),
    /// A TCP segment with SYN set.
    TcpSyn(Ipv4Info, TcpInfo),
    /// Any other TCP segment: the peer's address, the header, the data.
    Tcp(SocketAddr4, TcpInfo, Vec<u8>),
}

/// Send sequence space (RFC 793, 3.2).
#[derive(Clone, Copy, Debug, PartialEq, Eq)]
pub struct SendSequenceSpace {
    pub una: u32,
    pub nxt: u32,
    pub wnd: u16,
    pub up: bool,
    pub wl1: usize,
    pub wl2: usize,
    pub iss: u32,
}

/// Receive sequence space (RFC 793, 3.2).
#[derive(Clone, Copy, Debug, PartialEq, Eq)]
pub struct RecvSequenceSpace {
    pub nxt: u32,
    pub wnd: u16,
    pub up: bool,
    pub irs: u32,
}

/// A server-side TCP connection; `src` is the local end, `dst` the peer.
#[derive(Clone, Copy, Debug, PartialEq, Eq)]
pub struct Connection {
    pub state: State,
    pub send: SendSequenceSpace,
    pub recv: RecvSequenceSpace,
    pub src: SocketAddr4,
    pub dst: SocketAddr4,
}

/// What a packet on an existing connection asks of the caller, in this
/// order: accept the connection (hand a new stream to the listener), deliver
/// a payload to the application's stream, send a reply to the device.
#[derive(Debug, PartialEq, Eq)]
pub struct PacketOutcome {
    pub accept: bool,
    pub deliver: Option<Vec<u8>>,
    pub reply: Option<Vec<u8>>,
}

/// The time-to-live of every packet the stack sends.
pub const TTL: u8 = 20;

/// Addition modulo 2^32, the arithmetic of sequence numbers.
pub open spec fn seq_add(a: u32, n: int) -> u32 {
    ((a + n) % 0x1_0000_0000) as u32
}

pub open spec fn seq_view(o: Option<Vec<u8>>) -> Option<Seq<u8>> {
    match o {
        Some(v) => Some(v@),
        None => None,
    }
}

/// The loopback address with port 0: where a fresh connection points.
pub open spec fn unbound_addr() -> SocketAddr4 {
    SocketAddr4 { ip: [127, 0, 0, 1], port: 0 }
}

/// A fresh connection: listening, all sequence numbers zero.
pub open spec fn listening_connection() -> Connection {
    Connection {
        state: State::Listening,
        send: SendSequenceSpace { una: 0, nxt: 0, wnd: 0, up: false, wl1: 0, wl2: 0, iss: 0 },
        recv: RecvSequenceSpace { nxt: 0, wnd: 0, up: false, irs: 0 },
        src: unbound_addr(),
        dst: unbound_addr(),
    }
}

/// A segment that opens a connection: SYN alone, without FIN, PSH or ACK.
pub open spec fn opens_connection(t: TcpInfo) -> bool {
    t.syn && !t.fin && !t.psh && !t.ack
}

/// The connection that a SYN sets up (before the SYN-ACK is sent): local end
/// at the packet's destination, peer at its source, the send pointer at the
/// peer's acknowledgment number, the receive pointer just after the SYN.
pub open spec fn synced(c: Connection, ip: Ipv4Info, t: TcpInfo) -> Connection {
    Connection {
        state: State::SynRcvd,
        send: SendSequenceSpace {
            una: 0,
            nxt: t.acknowledgment_number,
            wnd: 1024,
            up: false,
            wl1: 0,
            wl2: 0,
            iss: 0,
        },
        recv: RecvSequenceSpace {
            nxt: seq_add(t.sequence_number, 1),
            wnd: t.window_size,
            up: false,
            irs: t.sequence_number,
        },
        src: SocketAddr4 { ip: ip.destination, port: t.destination_port },
        dst: SocketAddr4 { ip: ip.source, port: t.source_port },
    }
}

/// The receive pointer after a segment: one past a FIN, else past the data.
pub open spec fn advanced_recv(c: Connection, fin: bool, payload_len: u32) -> Connection {
    Connection {
        recv: RecvSequenceSpace {
            nxt: if fin { seq_add(c.recv.nxt, 1) } else { seq_add(c.recv.nxt, payload_len as int) },
            ..c.recv
        },
        ..c
    }
}

/// The ACK segment that `c` sends, with SYN and FIN as asked and no data.
pub open spec fn ack_segment(c: Connection, syn: bool, fin: bool) -> Seq<u8> {
    tcp_segment_bytes(
        c.src.ip@,
        c.dst.ip@,
        TTL,
        c.src.port,
        c.dst.port,
        c.send.nxt,
        c.send.wnd,
        c.recv.nxt,
        syn,
        fin,
        Seq::empty(),
    )
}

/// The connection after its ACK went out: a SYN and a FIN each take one
/// sequence number, and a FIN moves the connection to `LastAck`.
pub open spec fn after_ack_sent(c: Connection, syn: bool, fin: bool) -> Connection {
    let nxt1 = if syn { seq_add(c.send.nxt, 1) } else { c.send.nxt };
    Connection {
        state: if fin { State::LastAck } else { c.state },
        send: SendSequenceSpace { nxt: if fin { seq_add(nxt1, 1) } else { nxt1 }, ..c.send },
        ..c
    }
}

/// The connection after `send_ack`: the receive pointer advanced past the
/// segment, then the ACK sent.
pub open spec fn acked(c: Connection, syn: bool, fin: bool, payload_len: u32) -> Connection {
    after_ack_sent(advanced_recv(c, fin, payload_len), syn, fin)
}

/// The reply that `send_ack` sends.
pub open spec fn ack_reply(c: Connection, syn: bool, fin: bool, payload_len: u32) -> Seq<u8> {
    ack_segment(advanced_recv(c, fin, payload_len), syn, fin)
}

/// The connection after a SYN from the table's point of view.
pub open spec fn syn_next(c: Connection, ip: Ipv4Info, t: TcpInfo) -> Connection {
    if c.state is Listening && opens_connection(t) {
        acked(synced(c, ip, t), true, false, 0)
    } else {
        c
    }
}

/// The SYN-ACK that a SYN is answered with, if any.
pub open spec fn syn_reply(c: Connection, ip: Ipv4Info, t: TcpInfo) -> Option<Seq<u8>> {
    if c.state is Listening && opens_connection(t) {
        Some(ack_reply(synced(c, ip, t), true, false, 0))
    } else {
        None
    }
}

/// The ACK that completes the three-way handshake: ACK alone, no data.
pub open spec fn completes_handshake(t: TcpInfo, payload: Seq<u8>) -> bool {
    !t.fin && !t.psh && t.ack && payload.len() == 0
}

/// The connection after a non-SYN segment.
pub open spec fn packet_next(c: Connection, t: TcpInfo, payload: Seq<u8>) -> Connection {
    match c.state {
        State::SynRcvd => if completes_handshake(t, payload) {
            Connection { state: State::Estab, ..c }
        } else {
            c
        },
        State::Estab => acked(c, false, t.fin, payload.len() as u32),
        State::LastAck => if t.acknowledgment_number == c.send.nxt {
            Connection { state: State::Closed, ..c }
        } else {
            c
        },
        _ => c,
    }
}

/// The segment completes the handshake and the connection is to be accepted.
pub open spec fn packet_accepts(c: Connection, t: TcpInfo, payload: Seq<u8>) -> bool {
    c.state is SynRcvd && completes_handshake(t, payload)
}

/// The data handed to the application.
pub open spec fn packet_delivers(c: Connection, t: TcpInfo, payload: Seq<u8>) -> Option<Seq<u8>> {
    if c.state is Estab && payload.len() > 0 {
        Some(payload)
    } else {
        None
    }
}

/// The reply sent to the device.
pub open spec fn packet_reply(c: Connection, t: TcpInfo, payload: Seq<u8>) -> Option<Seq<u8>> {
    if c.state is Estab {
        Some(ack_reply(c, false, t.fin, payload.len() as u32))
    } else {
        None
    }
}

impl Connection {
    /// A fresh, listening connection.
    pub fn new() -> (c: Connection)
        ensures
            c == listening_connection(),
    {
        Connection {
            state: State::Listening,
            send: SendSequenceSpace { una: 0, nxt: 0, wnd: 0, up: false, wl1: 0, wl2: 0, iss: 0 },
            recv: RecvSequenceSpace { nxt: 0, wnd: 0, up: false, irs: 0 },
            src: SocketAddr4 { ip: [127, 0, 0, 1], port: 0 },
            dst: SocketAddr4 { ip: [127, 0, 0, 1], port: 0 },
        }
    }

    /// Handles a segment without SYN: finishes the handshake, hands data to
    /// the application and acknowledges it, and closes after the last ACK.
    /// Out-of-order segments in `SynRcvd` are ignored.
    pub fn on_packet(&mut self, tcph: &TcpInfo, payload: &[u8]) -> (out: PacketOutcome)
        ensures
            *final(self) == packet_next(*old(self), *tcph, payload@),
            out.accept == packet_accepts(*old(self), *tcph, payload@),
            seq_view(out.deliver) == packet_delivers(*old(self), *tcph, payload@),
            seq_view(out.reply) == packet_reply(*old(self), *tcph, payload@),
            final(self).state.rank() >= old(self).state.rank(),
            old(self).state is Estab && payload@.len() > 0 ==> (out.deliver matches Some(d) && d@
                == payload@),
            out.deliver matches Some(d) ==> d@ == payload@,
            out.accept ==> old(self).state is SynRcvd && final(self).state is Estab,
            final(self).send.wnd == old(self).send.wnd,
            out.reply matches Some(r) ==> {
                &&& segment_checksums_ok(r@)
                &&& ipv4_packet_ok(r@)
                &&& decodes_to(
                    r@,
                    segment_packet(
                        final(self).src.ip,
                        final(self).dst.ip,
                        final(self).src.port,
                        final(self).dst.port,
                        old(self).send.nxt,
                        final(self).send.wnd,
                        final(self).recv.nxt,
                        false,
                        tcph.fin,
                        0,
                    ),
                )
            },
    {
        match self.state {
            State::SynRcvd => {
                if tcph.fin || tcph.psh || !tcph.ack || payload.len() != 0 {
                    return PacketOutcome { accept: false, deliver: None, reply: None };
                }
                self.state = State::Estab;
                PacketOutcome { accept: true, deliver: None, reply: None }
            },
            State::Estab => {
                let payload_len = payload.len() as u32;
                let deliver = if payload.len() != 0 {
                    Some(vstd::slice::slice_to_vec(payload))
                } else {
                    None
                };
                let reply = self.send_ack(false, tcph.fin, payload_len);
                PacketOutcome { accept: false, deliver, reply: Some(reply) }
            },
            State::LastAck => {
                if tcph.acknowledgment_number == self.send.nxt {
                    self.state = State::Closed;
                }
                PacketOutcome { accept: false, deliver: None, reply: None }
            },
            _ => PacketOutcome { accept: false, deliver: None, reply: None },
        }
    }

    /// Handles a SYN: a listening connection takes its addresses and
    /// sequence numbers from it and answers with a SYN-ACK; any other SYN is
    /// ignored.
    pub fn on_packet_syn(&mut self, iph: &Ipv4Info, tcph: &TcpInfo) -> (reply: Option<Vec<u8>>)
        ensures
            *final(self) == syn_next(*old(self), *iph, *tcph),
            seq_view(reply) == syn_reply(*old(self), *iph, *tcph),
            final(self).state.rank() >= old(self).state.rank(),
            reply matches Some(r) ==> {
                &&& segment_checksums_ok(r@)
                &&& ipv4_packet_ok(r@)
                &&& decodes_to(
                    r@,
                    segment_packet(
                        iph.destination,
                        iph.source,
                        tcph.destination_port,
                        tcph.source_port,
                        tcph.acknowledgment_number,
                        1024,
                        seq_add(tcph.sequence_number, 1),
                        true,
                        false,
                        0,
                    ),
                )
                &&& final(self).send.nxt == seq_add(tcph.acknowledgment_number, 1)
            },
    {
        match self.state {
            State::Listening => {
                if tcph.fin || tcph.psh || tcph.ack || !tcph.syn {
                    return None;
                }
                self.init_state(iph, tcph);
                Some(self.send_ack(true, false, 0))
            },
            _ => None,
        }
    }

    /// Takes the connection's addresses and sequence numbers from a SYN.
    fn init_state(&mut self, iph: &Ipv4Info, tcph: &TcpInfo)
        ensures
            *final(self) == synced(*old(self), *iph, *tcph),
    {
        let iss: u32 = 0;
        let wnd: u16 = 1024;
        let ack = tcph.sequence_number.wrapping_add(1);
        self.state = State::SynRcvd;
        self.src = SocketAddr4 { ip: iph.destination, port: tcph.destination_port };
        self.dst = SocketAddr4 { ip: iph.source, port: tcph.source_port };
        self.send = SendSequenceSpace {
            iss,
            una: iss,
            nxt: tcph.acknowledgment_number,
            wnd: wnd,
            up: false,
            wl1: 0,
            wl2: 0,
        };
        self.recv = RecvSequenceSpace {
            irs: tcph.sequence_number,
            nxt: ack,
            wnd: tcph.window_size,
            up: false,
        };
    }

    /// Advances the receive pointer past a segment, builds the ACK for it
    /// (with SYN and FIN as asked), then advances the send pointer past the
    /// SYN and FIN; a FIN moves the connection to `LastAck`.
    fn send_ack(&mut self, syn_recieved: bool, fin_recieved: bool, payload_len: u32) -> (sent: Vec<u8>)
        ensures
            *final(self) == acked(*old(self), syn_recieved, fin_recieved, payload_len),
            sent@ == ack_reply(*old(self), syn_recieved, fin_recieved, payload_len),
            segment_checksums_ok(sent@),
            segment_layout(
                sent@,
                old(self).src.ip@,
                old(self).dst.ip@,
                TTL,
                old(self).src.port,
                old(self).dst.port,
                old(self).send.nxt,
                old(self).send.wnd,
                final(self).recv.nxt,
                syn_recieved,
                fin_recieved,
                Seq::empty(),
            ),
    {
        if fin_recieved {
            self.recv.nxt = self.recv.nxt.wrapping_add(1);
        } else {
            self.recv.nxt = self.recv.nxt.wrapping_add(payload_len);
        }
        let payload: Vec<u8> = Vec::new();
        let sent_bytes = write_tcp_segment(
            self.src.ip,
            self.dst.ip,
            TTL,
            self.src.port,
            self.dst.port,
            self.send.nxt,
            self.send.wnd,
            self.recv.nxt,
            syn_recieved,
            fin_recieved,
            payload.as_slice(),
        );
        if syn_recieved {
            self.send.nxt = self.send.nxt.wrapping_add(1);
        }
        if fin_recieved {
            self.state = State::LastAck;
            self.send.nxt = self.send.nxt.wrapping_add(1);
        }
        sent_bytes
    }

    /// The ACK segment this connection sends with `tcph`'s SYN and FIN
    /// flags, carrying `payload`; the connection itself is left as it is.
    pub fn gen_packet(&mut self, tcph: &TcpInfo, payload: &[u8]) -> (r: Vec<u8>)
        requires
            payload.len() <= MAX_SEGMENT_PAYLOAD,
        ensures
            *final(self) == *old(self),
            r@ == tcp_segment_bytes(
                old(self).src.ip@,
                old(self).dst.ip@,
                TTL,
                old(self).src.port,
                old(self).dst.port,
                old(self).send.nxt,
                old(self).send.wnd,
                old(self).recv.nxt,
                tcph.syn,
                tcph.fin,
                payload@,
            ),
            segment_checksums_ok(r@),
            ipv4_packet_ok(r@),
            decodes_to(
                r@,
                segment_packet(
                    old(self).src.ip,
                    old(self).dst.ip,
                    old(self).src.port,
                    old(self).dst.port,
                    old(self).send.nxt,
                    old(self).send.wnd,
                    old(self).recv.nxt,
                    tcph.syn,
                    tcph.fin,
                    payload@.len(),
                ),
            ),
    {
        let r = write_tcp_segment(
            self.src.ip,
            self.dst.ip,
            TTL,
            self.src.port,
            self.dst.port,
            self.send.nxt,
            self.send.wnd,
            self.recv.nxt,
            tcph.syn,
            tcph.fin,
            payload,
        );
        proof {
            lemma_segment_reads_back(
                r@,
                self.src.ip,
                self.dst.ip,
                TTL,
                self.src.port,
                self.dst.port,
                self.send.nxt,
                self.send.wnd,
                self.recv.nxt,
                tcph.syn,
                tcph.fin,
                payload@,
            );
        }
        r
    }

    /// The connection is closed.
    pub fn is_closed(&self) -> (b: bool)
        ensures
            b == (self.state is Closed),
    {
        match self.state {
            State::Closed => true,
            _ => false,
        }
    }
}

/// A connection's state never moves back: neither a SYN nor any other
/// segment lowers its rank.
pub proof fn lemma_states_only_advance(c: Connection, ip: Ipv4Info, t: TcpInfo, payload: Seq<u8>)
    ensures
        packet_next(c, t, payload).state.rank() >= c.state.rank(),
        syn_next(c, ip, t).state.rank() >= c.state.rank(),
{
}

/// A closed connection stays closed and answers nothing.
pub proof fn lemma_closed_is_final(c: Connection, ip: Ipv4Info, t: TcpInfo, payload: Seq<u8>)
    requires
        c.state is Closed,
    ensures
        packet_next(c, t, payload) == c,
        !packet_accepts(c, t, payload),
        packet_delivers(c, t, payload) is None,
        packet_reply(c, t, payload) is None,
        syn_next(c, ip, t) == c,
        syn_reply(c, ip, t) is None,
{
}

/// Once a SYN has set a connection up, its two ends never change.
pub proof fn lemma_endpoints_fixed(c: Connection, ip: Ipv4Info, t: TcpInfo, payload: Seq<u8>)
    requires
        !(c.state is Listening),
    ensures
        packet_next(c, t, payload).src == c.src,
        packet_next(c, t, payload).dst == c.dst,
        syn_next(c, ip, t) == c,
{
}

/// In `Estab`, a segment without FIN advances the receive pointer by its
/// data length and leaves the send pointer; a FIN advances both by one and
/// moves to `LastAck`. Either way the connection answers with an ACK.
pub proof fn lemma_established_accounting(c: Connection, t: TcpInfo, payload: Seq<u8>)
    requires
        c.state is Estab,
    ensures
        !t.fin ==> packet_next(c, t, payload).recv.nxt == seq_add(
            c.recv.nxt,
            (payload.len() as u32) as int,
        ) && packet_next(c, t, payload).send.nxt == c.send.nxt && packet_next(
            c,
            t,
            payload,
        ).state is Estab,
        t.fin ==> packet_next(c, t, payload).recv.nxt == seq_add(c.recv.nxt, 1) && packet_next(
            c,
            t,
            payload,
        ).send.nxt == seq_add(c.send.nxt, 1) && packet_next(c, t, payload).state is LastAck,
        packet_reply(c, t, payload) is Some,
{
}

/// In `LastAck`, the connection closes exactly on the ACK of its FIN.
pub proof fn lemma_last_ack_closes(c: Connection, t: TcpInfo, payload: Seq<u8>)
    requires
        c.state is LastAck,
    ensures
        packet_next(c, t, payload).state is Closed <==> t.acknowledgment_number == c.send.nxt,
{
}

/// In `Estab` every segment with data has all of its data handed to the
/// application, whatever its flags; and without a FIN the receive pointer
/// advances by exactly the length of the data handed on, so what is
/// acknowledged is what was delivered.
pub proof fn lemma_established_delivers_what_it_acknowledges(
    c: Connection,
    t: TcpInfo,
    payload: Seq<u8>,
)
    requires
        c.state is Estab,
        payload.len() > 0,
        payload.len() < 0x1_0000_0000,
    ensures
        packet_delivers(c, t, payload) == Some(payload),
        !t.fin ==> packet_next(c, t, payload).recv.nxt == (c.recv.nxt + payload.len())
            % 0x1_0000_0000,
{
}

/// Data reaches the application only from an established connection, and
/// only the segment's own data.
pub proof fn lemma_delivers_only_established_data(c: Connection, t: TcpInfo, payload: Seq<u8>)
    ensures
        packet_delivers(c, t, payload) matches Some(d) ==> c.state is Estab && d == payload
            && d.len() > 0,
{
}

/// A connection is accepted once, on the segment that completes the
/// handshake: the segment that accepts it finds it in `SynRcvd` and leaves
/// it in `Estab`, so no later segment accepts it again.
pub proof fn lemma_accepted_only_at_handshake(c: Connection, t: TcpInfo, payload: Seq<u8>)
    ensures
        packet_accepts(c, t, payload) ==> c.state is SynRcvd && packet_next(
            c,
            t,
            payload,
        ).state is Estab,
        !(c.state is SynRcvd) ==> !packet_accepts(c, t, payload),
{
}

/// The advertised window is fixed when the connection is set up (1024) and
/// no later segment changes it.
pub proof fn lemma_window_fixed(c: Connection, ip: Ipv4Info, t: TcpInfo, payload: Seq<u8>)
    ensures
        packet_next(c, t, payload).send.wnd == c.send.wnd,
        c.state is Listening && opens_connection(t) ==> syn_next(c, ip, t).send.wnd == 1024,
        !(c.state is Listening && opens_connection(t)) ==> syn_next(c, ip, t).send.wnd
            == c.send.wnd,
{
}

} // verus!

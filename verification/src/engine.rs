//! The protocol engine: sorts the packets read from the device, answers
//! pings, and drives one `Connection` per peer through a connection table.
use vstd::prelude::*;
use std::collections::HashMap;
use crate::packet::{
    be16, checksum_ok, data_offset_len, decodes_to, flag, ihl_len, ipv4_fields, ipv4_packet_ok, read_ipv4_packet,
    tcp_fields, word_sum, Ipv4Info, Ipv4Packet,
};
use crate::tcp::{
    addr_key, listening_connection, packet_accepts, packet_delivers, packet_next, packet_reply,
    seq_view, syn_next, syn_reply, Connection, FilterPacket, SocketAddr4,
};

verus! {

broadcast use vstd::std_specs::hash::group_hash_axioms;

/// Adds `d` to a 16-bit value in ones' complement arithmetic (end-around
/// carry).
pub open spec fn ones_add(a: int, d: int) -> int {
    if a + d > 0xFFFF {
        a + d - 0xFFFF
    } else {
        a + d
    }
}

/// The ICMP checksum of the echo reply to `b`: the request's checksum raised
/// by what clearing the type byte takes off the first ICMP word.
pub open spec fn echo_checksum(b: Seq<u8>) -> int {
    ones_add(be16(b, 22), b[20] * 0x100)
}

/// The ICMP echo reply to a request: source and destination addresses
/// swapped, the ICMP type byte (offset 20) set to 0 (echo reply), the ICMP
/// checksum (offsets 22 and 23, when the packet holds them) updated for the
/// type change, every other byte kept.
pub open spec fn echo_reply(b: Seq<u8>) -> Seq<u8> {
    Seq::new(
        b.len(),
        |i: int|
            if 12 <= i < 16 {
                b[i + 4]
            } else if 16 <= i < 20 {
                b[i - 4]
            } else if i == 20 {
                0u8
            } else if i == 22 && b.len() >= 24 {
                (echo_checksum(b) / 0x100) as u8
            } else if i == 23 && b.len() >= 24 {
                (echo_checksum(b) % 0x100) as u8
            } else {
                b[i]
            },
    )
}

/// The bytes hold an ICMP echo request: an IPv4 packet with protocol 1 whose
/// byte 20 (the ICMP type behind a 20-byte header) is 8.
pub open spec fn echo_request(b: Seq<u8>) -> bool {
    ipv4_packet_ok(b) && b[9] == 1 && b.len() > 20 && b[20] == 8
}

/// Where a TCP segment's data starts in the packet.
pub open spec fn tcp_data_start(b: Seq<u8>) -> int {
    ihl_len(b) + data_offset_len(b.skip(ihl_len(b)))
}

/// The connection table is consistent: each connection is filed under its
/// peer's key, and none is closed.
pub open spec fn table_wf(m: Map<u64, Connection>) -> bool {
    forall|k: u64|
        #[trigger] m.contains_key(k) ==> addr_key(m[k].dst) == k && !(m[k].state is Closed)
}

/// The table key of the one connection a packet can touch: none for a ping.
pub open spec fn packet_key(p: FilterPacket) -> Option<u64> {
    match p {
        FilterPacket::Ping(_) => None,
        FilterPacket::TcpSyn(ip, t) => Some(addr_key(syn_next(listening_connection(), ip, t).dst)),
        FilterPacket::Tcp(src, _, _) => Some(addr_key(src)),
    }
}

/// What the engine asks of its caller after one packet, in this order:
/// accept a connection, deliver data to a connection's stream, drop a
/// connection's stream, send a packet to the device.
#[derive(Debug, PartialEq, Eq)]
pub struct Actions {
    pub accept: Option<SocketAddr4>,
    pub deliver: Option<(SocketAddr4, Vec<u8>)>,
    pub drop_stream: Option<SocketAddr4>,
    pub to_tun: Option<Vec<u8>>,
}

pub open spec fn deliver_view(d: Option<(SocketAddr4, Vec<u8>)>) -> Option<(SocketAddr4, Seq<u8>)> {
    match d {
        Some((a, v)) => Some((a, v@)),
        None => None,
    }
}

/// The protocol engine: the table of connections, by peer.
pub struct Libtcp {
    conns: HashMap<u64, Connection>,
}

impl View for Libtcp {
    type V = Map<u64, Connection>;

    closed spec fn view(&self) -> Map<u64, Connection> {
        self.conns@
    }
}

impl Libtcp {
    /// An engine with no connection.
    pub fn instance() -> (l: Libtcp)
        ensures
            l@ == Map::<u64, Connection>::empty(),
            table_wf(l@),
    {
        Libtcp { conns: HashMap::new() }
    }

    /// Sorts a packet read from the device: ICMP echo requests whole, TCP segments
    /// with SYN by their headers, other TCP segments by peer, header and
    /// data. Anything else, or anything that does not decode as IPv4, is
    /// dropped.
    pub fn filter_packet(bytes: Vec<u8>) -> (r: Option<FilterPacket>)
        ensures
            !ipv4_packet_ok(bytes@) ==> r is None,
            ipv4_packet_ok(bytes@) && bytes@[9] != 6 && bytes@[9] != 1 ==> r is None,
            echo_request(bytes@) ==> (r matches Some(FilterPacket::Ping(b)) && b@ == bytes@),
            ipv4_packet_ok(bytes@) && bytes@[9] == 1 && !echo_request(bytes@) ==> r is None,
            ipv4_packet_ok(bytes@) && bytes@[9] == 6 && flag(bytes@[ihl_len(bytes@) + 13], 2)
                ==> (r matches Some(FilterPacket::TcpSyn(ip, t)) && ipv4_fields(bytes@, ip)
                && tcp_fields(bytes@.skip(ihl_len(bytes@)), t)),
            ipv4_packet_ok(bytes@) && bytes@[9] == 6 && !flag(bytes@[ihl_len(bytes@) + 13], 2)
                ==> (r matches Some(FilterPacket::Tcp(src, t, payload)) && src.ip@ == bytes@.subrange(
                12,
                16,
            ) && src.port == t.source_port && tcp_fields(bytes@.skip(ihl_len(bytes@)), t)
                && payload@ == bytes@.skip(tcp_data_start(bytes@))),
    {
        let parsed = read_ipv4_packet(bytes.as_slice());
        match parsed {
            Some(Ipv4Packet { ip, tcp }) => {
                if ip.protocol == 6 {
                    let tcph = match tcp {
                        Some(t) => t,
                        None => { return None; },
                    };
                    proof {
                        assert(bytes@.skip(ihl_len(bytes@))[13] == bytes@[ihl_len(bytes@) + 13]);
                    }
                    if tcph.syn {
                        return Some(FilterPacket::TcpSyn(ip, tcph));
                    }
                    let data_begin = ip.header_len + tcph.header_len as usize;
                    let data_end = bytes.len();
                    let payload = vstd::slice::slice_to_vec(
                        vstd::slice::slice_subrange(bytes.as_slice(), data_begin, data_end),
                    );
                    proof {
                        assert(payload@ =~= bytes@.skip(tcp_data_start(bytes@)));
                    }
                    Some(
                        FilterPacket::Tcp(
                            SocketAddr4 { ip: ip.source, port: tcph.source_port },
                            tcph,
                            payload,
                        ),
                    )
                } else if ip.protocol == 1 && bytes.len() > 20 && bytes[20] == 8 {
                    Some(FilterPacket::Ping(bytes))
                } else {
                    None
                }
            },
            None => None,
        }
    }

    /// Turns an ICMP echo request into its reply in place: swaps the source
    /// and destination addresses, sets the ICMP type to echo reply, and
    /// updates the ICMP checksum for the type change. The IPv4 header
    /// checksum needs no change: swapping two words keeps their sum.
    pub fn gen_ping_echo(bytes: Vec<u8>) -> (r: Vec<u8>)
        requires
            bytes.len() > 20,
        ensures
            r@ == echo_reply(bytes@),
    {
        let mut bytes = bytes;
        let ghost orig = bytes@;
        let mut i: usize = 12;
        while i < 16
            invariant
                12 <= i <= 16,
                bytes.len() == orig.len(),
                orig.len() > 20,
                forall|j: int| 12 <= j < i ==> bytes@[j] == orig[j + 4],
                forall|j: int| 16 <= j < i + 4 ==> bytes@[j] == orig[j - 4],
                forall|j: int| 0 <= j < bytes.len() && !(12 <= j < i) && !(16 <= j < i + 4)
                    ==> bytes@[j] == orig[j],
            decreases 16 - i,
        {
            let a = bytes[i];
            let b = bytes[i + 4];
            bytes.set(i, b);
            bytes.set(i + 4, a);
            i = i + 1;
        }
        if bytes.len() >= 24 {
            let check: u32 = bytes[22] as u32 * 0x100 + bytes[23] as u32;
            let mut sum: u32 = check + bytes[20] as u32 * 0x100;
            if sum > 0xFFFF {
                sum = sum - 0xFFFF;
            }
            bytes.set(22, (sum / 0x100) as u8);
            bytes.set(23, (sum % 0x100) as u8);
        }
        bytes.set(20, 0u8);
        assert(bytes@ =~= echo_reply(orig));
        bytes
    }
    /// Handles one sorted packet: answers a ping; files a SYN's new
    /// connection under its peer (replacing any connection there) and sends
    /// its SYN-ACK; passes any other segment to its peer's connection, if
    /// there is one, and takes the connection out of the table once it is
    /// closed.
    pub fn handle_packet(&mut self, packet: FilterPacket) -> (a: Actions)
        requires
            table_wf(old(self)@),
            packet matches FilterPacket::Ping(b) ==> b.len() > 20,
        ensures
            table_wf(final(self)@),
            forall|k: u64|
                packet_key(packet) != Some(k) ==> {
                    &&& #[trigger] final(self)@.contains_key(k) == old(self)@.contains_key(k)
                    &&& old(self)@.contains_key(k) ==> final(self)@[k] == old(self)@[k]
                },
            match packet {
                FilterPacket::Ping(b) => {
                    &&& final(self)@ == old(self)@
                    &&& a.accept is None
                    &&& a.deliver is None
                    &&& a.drop_stream is None
                    &&& seq_view(a.to_tun) == Some(echo_reply(b@))
                },
                FilterPacket::TcpSyn(ip, t) => {
                    let c = syn_next(listening_connection(), ip, t);
                    let k = addr_key(c.dst);
                    &&& final(self)@ == old(self)@.insert(k, c)
                    &&& a.accept is None
                    &&& a.deliver is None
                    &&& a.drop_stream == (if old(self)@.contains_key(k) {
                        Some(old(self)@[k].dst)
                    } else {
                        None
                    })
                    &&& seq_view(a.to_tun) == syn_reply(listening_connection(), ip, t)
                },
                FilterPacket::Tcp(src, t, payload) => {
                    let k = addr_key(src);
                    if !old(self)@.contains_key(k) {
                        &&& final(self)@ == old(self)@
                        &&& a.accept is None
                        &&& a.deliver is None
                        &&& a.drop_stream is None
                        &&& a.to_tun is None
                    } else {
                        let c = old(self)@[k];
                        let c2 = packet_next(c, t, payload@);
                        &&& final(self)@ == (if c2.state is Closed {
                            old(self)@.remove(k)
                        } else {
                            old(self)@.insert(k, c2)
                        })
                        &&& a.accept == (if packet_accepts(c, t, payload@) {
                            Some(c.dst)
                        } else {
                            None
                        })
                        &&& deliver_view(a.deliver) == (match packet_delivers(c, t, payload@) {
                            Some(p) => Some((c.dst, p)),
                            None => None,
                        })
                        &&& a.drop_stream == (if c2.state is Closed {
                            Some(c.dst)
                        } else {
                            None
                        })
                        &&& seq_view(a.to_tun) == packet_reply(c, t, payload@)
                    }
                },
            },
    {
        match packet {
            FilterPacket::Ping(bytes) => {
                let echo_bytes = Self::gen_ping_echo(bytes);
                Actions { accept: None, deliver: None, drop_stream: None, to_tun: Some(echo_bytes) }
            },
            FilterPacket::TcpSyn(iph, tcph) => {
                let mut conn = Connection::new();
                let reply = conn.on_packet_syn(&iph, &tcph);
                let key = conn.dst.key();
                let replaced = self.conns.insert(key, conn);
                let drop_stream = match replaced {
                    Some(o) => Some(o.dst),
                    None => None,
                };
                proof {
                    assert forall|k: u64| #[trigger] self.conns@.contains_key(k) implies addr_key(
                        self.conns@[k].dst,
                    ) == k && !(self.conns@[k].state is Closed) by {
                        if k != key {
                            assert(old(self).conns@.contains_key(k));
                        }
                    }
                }
                Actions { accept: None, deliver: None, drop_stream, to_tun: reply }
            },
            FilterPacket::Tcp(src, tcph, payload) => {
                let key = src.key();
                let found = self.conns.get(&key);
                match found {
                    None => Actions { accept: None, deliver: None, drop_stream: None, to_tun: None },
                    Some(c) => {
                        let mut conn = *c;
                        let out = conn.on_packet(&tcph, payload.as_slice());
                        let peer = conn.dst;
                        let mut drop_stream = None;
                        if conn.is_closed() {
                            self.conns.remove(&key);
                            drop_stream = Some(peer);
                        } else {
                            self.conns.insert(key, conn);
                        }
                        proof {
                            assert forall|k: u64| #[trigger] self.conns@.contains_key(k) implies addr_key(
                                self.conns@[k].dst,
                            ) == k && !(self.conns@[k].state is Closed) by {
                                if k != key {
                                    assert(old(self).conns@.contains_key(k));
                                }
                            }
                        }
                        let accept = if out.accept {
                            Some(peer)
                        } else {
                            None
                        };
                        let deliver = match out.deliver {
                            Some(d) => Some((peer, d)),
                            None => None,
                        };
                        Actions { accept, deliver, drop_stream, to_tun: out.reply }
                    },
                }
            },
        }
    }
}

/// Answering an echo reply again only swaps the addresses back: its type is
/// already 0, so neither the type byte nor the checksum changes again.
pub proof fn lemma_echo_twice(b: Seq<u8>)
    requires
        b.len() > 20,
    ensures
        echo_reply(echo_reply(b)).len() == b.len(),
        echo_reply(echo_reply(b)).subrange(12, 20) == b.subrange(12, 20),
        forall|i: int|
            0 <= i < b.len() && !(12 <= i < 20) ==> echo_reply(echo_reply(b))[i] == echo_reply(b)[i],
{
    let e = echo_reply(b);
    assert(e[20] == 0);
    assert(echo_reply(e).subrange(12, 20) =~= b.subrange(12, 20));
}

/// The word sum of a sequence of at least four bytes: its first two words
/// plus the word sum of the rest.
pub proof fn lemma_word_sum_head(s: Seq<u8>)
    requires
        s.len() >= 4,
    ensures
        word_sum(s) == be16(s, 0) + be16(s, 2) + word_sum(s.skip(4)),
{
    let r = s.skip(2);
    assert(r.len() >= 2);
    assert(word_sum(s) == be16(s, 0) + word_sum(r));
    assert(word_sum(r) == be16(r, 0) + word_sum(r.skip(2)));
    assert(r.skip(2) =~= s.skip(4));
    assert(be16(r, 0) == be16(s, 2));
}

/// A word sum is never negative.
pub proof fn lemma_word_sum_nonneg(s: Seq<u8>)
    ensures
        word_sum(s) >= 0,
    decreases s.len(),
{
    if s.len() >= 2 {
        lemma_word_sum_nonneg(s.skip(2));
    }
}

/// The word sum of a 20-byte header is the sum of its ten words.
pub proof fn lemma_word_sum_header(h: Seq<u8>)
    requires
        h.len() == 20,
    ensures
        word_sum(h) == be16(h, 0) + be16(h, 2) + be16(h, 4) + be16(h, 6) + be16(h, 8) + be16(
            h,
            10,
        ) + be16(h, 12) + be16(h, 14) + be16(h, 16) + be16(h, 18),
{
    lemma_word_sum_head(h);
    lemma_word_sum_head(h.skip(4));
    lemma_word_sum_head(h.skip(8));
    lemma_word_sum_head(h.skip(12));
    lemma_word_sum_head(h.skip(16));
    assert(h.skip(4).skip(4) =~= h.skip(8));
    assert(h.skip(8).skip(4) =~= h.skip(12));
    assert(h.skip(12).skip(4) =~= h.skip(16));
    assert(h.skip(16).skip(4) =~= Seq::<u8>::empty());
}

/// The echo reply to a request with a correct ICMP checksum carries a
/// correct ICMP checksum.
pub proof fn lemma_echo_reply_icmp_checksum(b: Seq<u8>)
    requires
        b.len() >= 24,
        checksum_ok(b.skip(20)),
    ensures
        checksum_ok(echo_reply(b).skip(20)),
{
    let s = b.skip(20);
    let t = echo_reply(b).skip(20);
    lemma_word_sum_head(s);
    lemma_word_sum_head(t);
    assert(t.skip(4) =~= s.skip(4));
    lemma_word_sum_nonneg(s.skip(4));
    let c = echo_checksum(b);
    assert(0 <= c <= 0xFFFF);
    assert(be16(t, 2) == c);
    assert(be16(t, 0) == b[21]);
}

/// Swapping the addresses keeps the IPv4 header checksum correct.
pub proof fn lemma_echo_reply_header_checksum(b: Seq<u8>)
    requires
        b.len() > 20,
        checksum_ok(b.subrange(0, 20)),
    ensures
        checksum_ok(echo_reply(b).subrange(0, 20)),
{
    let h = b.subrange(0, 20);
    let g = echo_reply(b).subrange(0, 20);
    lemma_word_sum_header(h);
    lemma_word_sum_header(g);
}

/// The echo reply to an ICMP packet decodes as the request did, with source
/// and destination swapped.
pub proof fn lemma_echo_reply_swaps(b: Seq<u8>, p: Ipv4Packet)
    requires
        ipv4_packet_ok(b),
        b[9] == 1,
        b.len() > 20,
        decodes_to(b, p),
    ensures
        ipv4_packet_ok(echo_reply(b)),
        decodes_to(
            echo_reply(b),
            Ipv4Packet {
                ip: Ipv4Info { source: p.ip.destination, destination: p.ip.source, ..p.ip },
                tcp: None,
            },
        ),
{
    let e = echo_reply(b);
    assert(e[0] == b[0]);
    assert(e[2] == b[2] && e[3] == b[3]);
    assert(e[9] == b[9]);
    assert(e.subrange(12, 16) =~= b.subrange(16, 20));
    assert(e.subrange(16, 20) =~= b.subrange(12, 16));
}

} // verus!

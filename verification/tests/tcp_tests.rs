use libtcp::packet::{Ipv4Info, TcpInfo};
use libtcp::tcp::{Connection, SocketAddr4, State};
use etherparse::{IpHeader, Ipv4Header, PacketHeaders, TcpHeader, TransportHeader};

fn decode(b: &[u8]) -> (Ipv4Header, Option<TcpHeader>) {
    let h = PacketHeaders::from_ip_slice(b).unwrap();
    let ip = match h.ip {
        Some(IpHeader::Version4(ip)) => ip,
        _ => panic!("not IPv4"),
    };
    let tcp = match h.transport {
        Some(TransportHeader::Tcp(t)) => Some(t),
        _ => None,
    };
    (ip, tcp)
}


fn ip() -> Ipv4Info {
    Ipv4Info { source: [10, 0, 0, 1], destination: [10, 0, 0, 5], protocol: 6, header_len: 20, payload_len: 40 }
}

fn tcp(seq: u32, ack_number: u32, syn: bool, ack: bool, psh: bool, fin: bool) -> TcpInfo {
    TcpInfo {
        source_port: 34255,
        destination_port: 8000,
        sequence_number: seq,
        acknowledgment_number: ack_number,
        header_len: 20,
        fin,
        syn,
        psh,
        ack,
        window_size: 29200,
    }
}

#[test]
fn new_connection_listens() {
    let c = Connection::new();
    assert_eq!(c.state, State::Listening);
    assert!(!c.is_closed());
    assert_eq!(c.dst, SocketAddr4 { ip: [127, 0, 0, 1], port: 0 });
    assert_eq!(c.send.nxt, 0);
    assert_eq!(c.recv.nxt, 0);
}

#[test]
fn syn_sets_up_connection() {
    let mut c = Connection::new();
    let reply = c.on_packet_syn(&ip(), &tcp(41, 0, true, false, false, false)).unwrap();
    assert_eq!(c.state, State::SynRcvd);
    assert_eq!(c.src, SocketAddr4 { ip: [10, 0, 0, 5], port: 8000 });
    assert_eq!(c.dst, SocketAddr4 { ip: [10, 0, 0, 1], port: 34255 });
    assert_eq!(c.recv.irs, 41);
    assert_eq!(c.recv.nxt, 42);
    assert_eq!(c.recv.wnd, 29200);
    assert_eq!(c.send.nxt, 1);
    assert_eq!(c.send.wnd, 1024);
    let t = decode(&reply).1.unwrap();
    assert_eq!((t.sequence_number, t.acknowledgment_number), (0, 42));
    assert!(t.syn && t.ack);
}

#[test]
fn syn_with_other_flags_is_ignored() {
    for t in [tcp(0, 0, true, true, false, false), tcp(0, 0, true, false, true, false), tcp(0, 0, true, false, false, true), tcp(0, 0, false, false, false, false)] {
        let mut c = Connection::new();
        assert!(c.on_packet_syn(&ip(), &t).is_none());
        assert_eq!(c, Connection::new());
    }
}

#[test]
fn second_syn_on_open_connection_is_ignored() {
    let mut c = Connection::new();
    c.on_packet_syn(&ip(), &tcp(0, 0, true, false, false, false));
    let before = c;
    assert!(c.on_packet_syn(&ip(), &tcp(9, 0, true, false, false, false)).is_none());
    assert_eq!(c, before);
}

#[test]
fn connection_lifecycle() {
    let mut c = Connection::new();
    c.on_packet_syn(&ip(), &tcp(0, 0, true, false, false, false));
    let out = c.on_packet(&tcp(1, 1, false, true, false, false), &[]);
    assert!(out.accept && out.deliver.is_none() && out.reply.is_none());
    assert_eq!(c.state, State::Estab);

    let out = c.on_packet(&tcp(1, 1, false, true, true, false), b"hi");
    assert!(!out.accept);
    assert_eq!(out.deliver, Some(b"hi".to_vec()));
    assert_eq!(c.recv.nxt, 3);
    let t = decode(&out.reply.unwrap()).1.unwrap();
    assert_eq!(t.acknowledgment_number, 3);

    let out = c.on_packet(&tcp(3, 1, false, true, false, true), &[]);
    assert_eq!(c.state, State::LastAck);
    assert_eq!(c.recv.nxt, 4);
    assert_eq!(c.send.nxt, 2);
    let t = decode(&out.reply.unwrap()).1.unwrap();
    assert!(t.fin && t.ack);
    assert_eq!((t.sequence_number, t.acknowledgment_number), (1, 4));

    c.on_packet(&tcp(4, 1, false, true, false, false), &[]);
    assert_eq!(c.state, State::LastAck);
    c.on_packet(&tcp(4, 2, false, true, false, false), &[]);
    assert!(c.is_closed());

    let closed = c;
    let out = c.on_packet(&tcp(4, 2, false, true, true, false), b"late");
    assert!(!out.accept && out.deliver.is_none() && out.reply.is_none());
    assert_eq!(c, closed);
}

#[test]
fn fin_with_data_acknowledges_only_the_fin() {
    let mut c = Connection::new();
    c.on_packet_syn(&ip(), &tcp(0, 0, true, false, false, false));
    c.on_packet(&tcp(1, 1, false, true, false, false), &[]);
    let out = c.on_packet(&tcp(1, 1, false, true, true, true), b"bye");
    assert_eq!(out.deliver, Some(b"bye".to_vec()));
    assert_eq!(c.recv.nxt, 2);
}

#[test]
fn key_orders_octets_then_port() {
    let a = SocketAddr4 { ip: [10, 0, 0, 1], port: 34255 };
    assert_eq!(a.key(), (10u64 << 40) | (1u64 << 16) | 34255);
    let b = SocketAddr4 { ip: [10, 0, 0, 1], port: 34256 };
    assert_ne!(a.key(), b.key());
}

#[test]
fn gen_packet_uses_given_flags_and_keeps_connection() {
    let mut c = Connection::new();
    c.on_packet_syn(&ip(), &tcp(0, 0, true, false, false, false));
    let before = c;
    let r = c.gen_packet(&tcp(0, 0, false, true, false, true), b"ok");
    assert_eq!(c, before);
    let (h, t) = decode(&r);
    let t = t.unwrap();
    assert_eq!(h.source, [10, 0, 0, 5]);
    assert!(t.fin && t.ack && !t.syn);
    assert_eq!((t.sequence_number, t.acknowledgment_number), (1, 1));
    assert_eq!(&r[40..], b"ok");
}

fn folded_sum(words: &[u8]) -> u32 {
    let mut sum: u32 = 0;
    let mut i = 0;
    while i < words.len() {
        let lo = if i + 1 < words.len() { words[i + 1] as u32 } else { 0 };
        sum += ((words[i] as u32) << 8) | lo;
        i += 2;
    }
    while sum > 0xffff {
        sum = (sum & 0xffff) + (sum >> 16);
    }
    sum
}

#[test]
fn syn_ack_checksums_are_valid() {
    let mut c = Connection::new();
    let r = c.on_packet_syn(&ip(), &tcp(41, 0, true, false, false, false)).unwrap();
    assert_eq!(folded_sum(&r[..20]), 0xffff);
    let mut pseudo = r[12..20].to_vec();
    pseudo.extend_from_slice(&[0, 6, 0, (r.len() - 20) as u8]);
    pseudo.extend_from_slice(&r[20..]);
    assert_eq!(folded_sum(&pseudo), 0xffff);
}

use libtcp::engine::Libtcp as Engine;
use libtcp::responder::{Connection, FilterPacket, Libtcp, State, HELLO};
use etherparse::{IpHeader, Ipv4Header, PacketBuilder, PacketHeaders, TcpHeader, TransportHeader};

fn decode(b: &[u8]) -> (Ipv4Header, Option<TcpHeader>) {
    let h = PacketHeaders::from_ip_slice(b).unwrap();
    let ip = match h.ip {
        Some(IpHeader::Version4(ip)) => ip,
        _ => panic!("not IPv4"),
    };
    let tcp = match h.transport {
        Some(TransportHeader::Tcp(t)) => Some(t),
        _ => None,
    };
    (ip, tcp)
}


fn segment(seq: u32, ack: Option<u32>, syn: bool, psh: bool, fin: bool, payload: &[u8]) -> Vec<u8> {
    let mut b = PacketBuilder::ipv4([10, 0, 0, 1], [10, 0, 0, 5], 64).tcp(34255, 8000, seq, 29200);
    if let Some(n) = ack {
        b = b.ack(n);
    }
    if syn {
        b = b.syn();
    }
    if psh {
        b = b.psh();
    }
    if fin {
        b = b.fin();
    }
    let mut out = Vec::new();
    b.write(&mut out, payload).unwrap();
    out
}

fn ping() -> Vec<u8> {
    vec![69, 0, 0, 36, 3, 119, 64, 0, 64, 1, 35, 93, 10, 0, 0, 1, 10, 0, 0, 5, 8, 0, 232, 126, 3, 112, 0, 1, 0, 1, 2, 3, 4, 5, 6, 7]
}

#[test]
fn syn_gets_syn_ack_and_accept() {
    let c = Libtcp::filter_with_tcp(&segment(0, None, true, false, false, &[])).unwrap();
    assert_eq!(c.state, State::SynRcvd);
    assert_eq!(c.recv.nxt, 1);
    let r = Libtcp::respond(FilterPacket::Tcp(c));
    assert!(r.accept);
    let t = decode(&r.reply).1.unwrap();
    assert!(t.syn && t.ack && !t.fin);
    assert_eq!((t.sequence_number, t.acknowledgment_number, t.window_size), (0, 1, 1024));
    assert_eq!((t.source_port, t.destination_port), (8000, 34255));
}

#[test]
fn data_is_acknowledged_and_answered_with_hello() {
    let c = Libtcp::filter_with_tcp(&segment(1, Some(1), false, true, false, b"hello\n\n")).unwrap();
    assert_eq!(c.state, State::Estab);
    assert_eq!(c.recv.nxt, 8);
    let reply = Libtcp::gen_tcp_packet(c);
    let p = decode(&reply);
    let t = p.1.unwrap();
    assert_eq!(t.acknowledgment_number, 8);
    assert_eq!(&reply[40..], &HELLO);
    assert_eq!(&reply[40..], b"hello\n");
}

#[test]
fn fin_is_answered_with_fin_ack() {
    let c = Libtcp::filter_with_tcp(&segment(8, Some(3), false, false, true, &[])).unwrap();
    let reply = Libtcp::gen_tcp_packet(c);
    let t = decode(&reply).1.unwrap();
    assert!(t.fin && t.ack);
    assert_eq!((t.sequence_number, t.acknowledgment_number), (3, 9));
    assert_eq!(reply.len(), 40);
}

#[test]
fn plain_ack_is_not_answered() {
    assert!(Libtcp::filter_with_tcp(&segment(1, Some(1), false, false, false, &[])).is_none());
    assert!(Libtcp::filter_with_tcp(&ping()).is_none());
}

#[test]
fn echo_request_is_kept() {
    assert_eq!(Libtcp::filter_with_icmp(ping()), Some(ping()));
    let mut reply = ping();
    reply[20] = 0;
    assert_eq!(Libtcp::filter_with_icmp(reply), None);
    assert_eq!(Libtcp::filter_with_icmp(segment(0, None, true, false, false, &[])), None);
}

#[test]
fn filter_and_respond_to_ping() {
    match Libtcp::filter_packet(ping()) {
        Some(FilterPacket::Ping(b)) => {
            let r = Libtcp::respond(FilterPacket::Ping(b));
            assert!(!r.accept);
            assert_eq!(r.reply, Engine::gen_ping_echo(ping()));
        }
        _ => panic!("expected a ping"),
    }
}

#[test]
fn answer_ping_ignores_segments() {
    let c = Libtcp::filter_with_tcp(&segment(0, None, true, false, false, &[])).unwrap();
    assert!(Libtcp::answer_ping(FilterPacket::Tcp(c)).is_none());
    assert_eq!(Libtcp::answer_ping(FilterPacket::Ping(ping())), Some(Engine::gen_ping_echo(ping())));
}

#[test]
fn connection_gen_packet_keeps_connection() {
    let mut c: Connection = Libtcp::filter_with_tcp(&segment(5, None, true, false, false, &[])).unwrap();
    let before = c;
    let r = c.gen_packet(&[7, 7]);
    assert_eq!(c, before);
    assert_eq!(r.len(), 42);
    assert_eq!(&r[40..], &[7, 7]);
}

#[test]
fn readme_capture_exchange() {
    // SYN Seq=0 -> [SYN, ACK] Seq=0 Ack=1 Win=1024
    let r = Libtcp::respond(Libtcp::filter_packet(segment(0, None, true, false, false, &[])).unwrap());
    assert!(r.accept);
    let t = decode(&r.reply).1.unwrap();
    assert!(t.syn && t.ack);
    assert_eq!((t.sequence_number, t.acknowledgment_number, t.window_size), (0, 1, 1024));
    // ACK Seq=1 Ack=1 is not answered
    assert!(Libtcp::filter_packet(segment(1, Some(1), false, false, false, &[])).is_none());
    // [PSH, ACK] Seq=1 Ack=1 Len=7 -> [ACK] Seq=1 Ack=8 carrying "hello\n"
    let c = Libtcp::filter_with_tcp(&segment(1, Some(1), false, true, false, b"abcdef\n")).unwrap();
    let reply = Libtcp::gen_tcp_packet(c);
    let t = decode(&reply).1.unwrap();
    assert_eq!((t.sequence_number, t.acknowledgment_number), (1, 8));
    assert_eq!(&reply[40..], b"hello\n");
    // [FIN, ACK] Seq=8 Ack=3 -> [FIN, ACK] Seq=3 Ack=9
    let r = Libtcp::respond(Libtcp::filter_packet(segment(8, Some(3), false, false, true, &[])).unwrap());
    assert!(!r.accept);
    let t = decode(&r.reply).1.unwrap();
    assert!(t.fin && t.ack);
    assert_eq!((t.sequence_number, t.acknowledgment_number), (3, 9));
}

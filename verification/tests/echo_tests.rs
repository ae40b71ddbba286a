use libtcp::engine::Libtcp;
use etherparse::{IpHeader, Ipv4Header, PacketHeaders, TcpHeader, TransportHeader};

fn decode(b: &[u8]) -> (Ipv4Header, Option<TcpHeader>) {
    let h = PacketHeaders::from_ip_slice(b).unwrap();
    let ip = match h.ip {
        Some(IpHeader::Version4(ip)) => ip,
        _ => panic!("not IPv4"),
    };
    let tcp = match h.transport {
        Some(TransportHeader::Tcp(t)) => Some(t),
        _ => None,
    };
    (ip, tcp)
}


fn ping() -> Vec<u8> {
    vec![69, 0, 0, 36, 3, 119, 64, 0, 64, 1, 35, 93, 10, 0, 0, 1, 10, 0, 0, 5, 8, 0, 232, 126, 3, 112, 0, 1, 0, 1, 2, 3, 4, 5, 6, 7]
}

#[test]
fn echo_reply_of_readme_ping() {
    let reply = Libtcp::gen_ping_echo(ping());
    assert_eq!(
        reply,
        vec![69, 0, 0, 36, 3, 119, 64, 0, 64, 1, 35, 93, 10, 0, 0, 5, 10, 0, 0, 1, 0, 0, 240, 126, 3, 112, 0, 1, 0, 1, 2, 3, 4, 5, 6, 7]
    );
}

#[test]
fn echo_twice_restores_addresses() {
    let once = Libtcp::gen_ping_echo(ping());
    let twice = Libtcp::gen_ping_echo(once.clone());
    let mut expected = once;
    expected[12..20].copy_from_slice(&ping()[12..20]);
    assert_eq!(twice, expected);
}

#[test]
fn echo_reply_decodes_with_swapped_addresses() {
    let req = decode(&ping());
    let rep = decode(&Libtcp::gen_ping_echo(ping()));
    assert_eq!(rep.0.source, req.0.destination);
    assert_eq!(rep.0.destination, req.0.source);
    assert_eq!(rep.0.protocol, 1);
}

#[test]
fn echo_of_minimal_packet() {
    let mut p = vec![0u8; 21];
    p[12] = 1;
    p[16] = 2;
    p[20] = 8;
    let r = Libtcp::gen_ping_echo(p);
    assert_eq!(r[12], 2);
    assert_eq!(r[16], 1);
    assert_eq!(r[20], 0);
    assert_eq!(r.len(), 21);
}

fn ones_complement_sum(words: &[u8]) -> u32 {
    let mut sum: u32 = 0;
    let mut i = 0;
    while i < words.len() {
        let lo = if i + 1 < words.len() { words[i + 1] as u32 } else { 0 };
        sum += ((words[i] as u32) << 8) | lo;
        i += 2;
    }
    while sum > 0xffff {
        sum = (sum & 0xffff) + (sum >> 16);
    }
    sum
}

#[test]
fn echo_reply_checksums_are_valid() {
    let req = ping();
    assert_eq!(ones_complement_sum(&req[20..]), 0xffff);
    assert_eq!(ones_complement_sum(&req[..20]), 0xffff);
    let rep = Libtcp::gen_ping_echo(req);
    assert_eq!(ones_complement_sum(&rep[20..]), 0xffff);
    assert_eq!(ones_complement_sum(&rep[..20]), 0xffff);
}

#[test]
fn echo_checksum_carries_around() {
    // a request whose checksum is near the top: 0xFF00 + 0x0800 wraps around to 0x0701
    let mut p = ping();
    p[22] = 0xff;
    p[23] = 0x00;
    let r = Libtcp::gen_ping_echo(p);
    assert_eq!(&r[22..24], &[0x07, 0x01]);
}

#[test]
fn echo_of_short_packet_has_no_checksum_to_update() {
    let mut p = vec![0u8; 22];
    p[20] = 8;
    p[21] = 5;
    let r = Libtcp::gen_ping_echo(p);
    assert_eq!(&r[20..], &[0, 5]);
}

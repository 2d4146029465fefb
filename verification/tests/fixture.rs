use procnet::address::{IpAddr, SocketAddr};
use procnet::fixture::{next_length, parse_command, tcp_client_line, tcp_ready_line, Command, FixtureRun};
use procnet::fixture_tcp;
use procnet::fixture_tcp::{fill_pattern, verify_pattern};
use procnet::fixture_udp;

#[test]
fn parses_documented_tcp_client_contract() {
    let arguments = [
        "tcp-client".to_owned(),
        "--target".to_owned(),
        "127.0.0.1:39001".to_owned(),
        "--bytes".to_owned(),
        "52428800".to_owned(),
    ];
    assert_eq!(
        parse_command(&arguments),
        Ok(Command::TcpClient { target: "127.0.0.1:39001".to_owned(), bytes: 52_428_800 })
    );
}

#[test]
fn rejects_zero_or_unbounded_byte_counts() {
    for bytes in ["0", "1073741825"] {
        let arguments = [
            "tcp-client".to_owned(),
            "--target".to_owned(),
            "127.0.0.1:39001".to_owned(),
            "--bytes".to_owned(),
            bytes.to_owned(),
        ];
        assert!(parse_command(&arguments).is_err());
    }
}

#[test]
fn parses_documented_udp_contract() {
    let server = ["udp-server".to_owned(), "--bind".to_owned(), "127.0.0.1:39002".to_owned()];
    assert_eq!(
        parse_command(&server),
        Ok(Command::UdpServer { bind: "127.0.0.1:39002".to_owned() })
    );

    let client = [
        "udp-client".to_owned(),
        "--target".to_owned(),
        "127.0.0.1:39002".to_owned(),
        "--bytes".to_owned(),
        "10485760".to_owned(),
    ];
    assert_eq!(
        parse_command(&client),
        Ok(Command::UdpClient { target: "127.0.0.1:39002".to_owned(), bytes: 10_485_760 })
    );
}

#[test]
fn accepts_bracketed_ipv6_fixture_addresses() {
    let server = ["tcp-server".to_owned(), "--bind".to_owned(), "[::1]:39004".to_owned()];
    assert_eq!(
        parse_command(&server),
        Ok(Command::TcpServer { bind: "[::1]:39004".to_owned() })
    );
}

#[test]
fn anything_else_is_answered_with_the_usage() {
    assert!(parse_command(&["tcp-server".to_owned()]).unwrap_err().starts_with("usage:"));
}

#[test]
fn pattern_is_stable_across_chunk_boundaries() {
    let mut whole = vec![0_u8; 131_089];
    fill_pattern(&mut whole, 0);

    let mut second_chunk = vec![0_u8; whole.len() - 65_536];
    fill_pattern(&mut second_chunk, 65_536);
    assert_eq!(&whole[65_536..], second_chunk);
    assert!(verify_pattern(&whole, 0).is_ok());
}

#[test]
fn verification_detects_corruption() {
    let mut bytes = vec![0_u8; 32];
    fill_pattern(&mut bytes, 100);
    bytes[7] ^= 1;
    assert!(verify_pattern(&bytes, 100).is_err());
}

#[test]
fn udp_pattern_is_stable_and_detects_corruption() {
    let mut bytes = vec![0_u8; 60_001];
    fixture_udp::fill_pattern(&mut bytes, 0);
    assert!(fixture_udp::verify_pattern(&bytes, 0).is_ok());
    bytes[60_000] ^= 1;
    assert!(fixture_udp::verify_pattern(&bytes, 0).is_err());
}

#[test]
fn bytes_of_the_streams_are_exact() {
    assert_eq!(fixture_tcp::pattern_byte(0), 17);
    assert_eq!(fixture_tcp::pattern_byte(10), 76);
    assert_eq!(fixture_udp::pattern_byte(0), 29);
    assert_eq!(
        u64::from(fixture_udp::pattern_byte(u64::MAX)),
        u64::MAX.wrapping_mul(47).wrapping_add(29) % 251
    );
    assert_eq!(next_length(100, 40, 50), 50);
    assert_eq!(next_length(100, 60, 50), 40);
}

#[test]
fn echoes_are_accounted_for() {
    let mut bytes = vec![0_u8; 4];
    fill_pattern(&mut bytes, 6);
    assert_eq!(fixture_tcp::take_echo(10, 6, &bytes), Ok(10));
    assert_eq!(
        fixture_tcp::take_echo(10, 6, &[]).unwrap_err(),
        "TCP echo ended after 6 of 10 bytes"
    );
    bytes[1] = 0;
    assert_eq!(
        fixture_tcp::take_echo(10, 6, &bytes).unwrap_err(),
        "TCP echo verification failed at byte 7: expected 234, got 0"
    );
    assert_eq!(fixture_tcp::count_received(u64::MAX, 0), Ok(u64::MAX));
    assert!(fixture_tcp::count_sent(u64::MAX, 1).unwrap_err().contains("overflow"));
}

#[test]
fn an_udp_server_keeps_to_one_peer() {
    let peer = SocketAddr::new(IpAddr::from_v4_octets([127, 0, 0, 1]), 5);
    let other = SocketAddr::new(IpAddr::from_v4_octets([127, 0, 0, 1]), 6);
    let mut server = fixture_udp::EchoServer::new();
    assert!(server.finish().unwrap_err().contains("timed out"));
    assert!(server.hear(peer).is_ok());
    assert!(server.echoed(8, 8).is_ok());
    assert_eq!(
        server.echoed(8, 7).unwrap_err(),
        "UDP server sent 7 of 8 datagram bytes"
    );
    assert_eq!(
        server.hear(other).unwrap_err(),
        "UDP fixture received an unexpected second peer: 127.0.0.1:6"
    );
    assert_eq!(server.finish(), Ok(peer));
    assert_eq!((server.datagrams, server.bytes_received, server.bytes_sent), (1, 8, 8));
    assert_eq!(
        fixture_udp::take_echo(3, &[1], 0).unwrap_err(),
        "UDP echo length mismatch: expected 3, got 1"
    );
    assert_eq!(
        fixture_udp::check_sent(3, 2).unwrap_err(),
        "UDP client sent 2 of 3 datagram bytes"
    );
}

#[test]
fn an_udp_server_tells_scopes_apart() {
    let link_local = [0xfe, 0x80, 0, 0, 0, 0, 0, 0, 0, 0, 0, 0, 0, 0, 0, 1];
    let peer = SocketAddr::new_v6(link_local, 5, 0, 3);
    let mut server = fixture_udp::EchoServer::new();
    assert!(server.hear(peer).is_ok());
    assert!(server.hear(peer).is_ok());
    assert_eq!(
        server.hear(SocketAddr::new_v6(link_local, 5, 0, 4)).unwrap_err(),
        "UDP fixture received an unexpected second peer: [fe80::1%4]:5"
    );
    assert_eq!(fixture_udp::test_id(peer, peer), "udp6-[fe80::1%3]:5-[fe80::1%3]:5");
}

#[test]
fn fixture_lines_are_exact() {
    let local = SocketAddr::new(IpAddr::from_v4_octets([127, 0, 0, 1]), 5);
    let peer = SocketAddr::new(IpAddr::from_v4_octets([127, 0, 0, 1]), 6);
    assert_eq!(
        tcp_ready_line(3, local, 9),
        "FIXTURE_TCP_SERVER_READY pid=3 bind=127.0.0.1:5 started_unix_ms=9"
    );
    let run = FixtureRun { pid: 3, local, peer, started_unix_ms: 1, ended_unix_ms: 2 };
    assert_eq!(
        tcp_client_line(&run, 10, 10, 10),
        "FIXTURE_TCP_CLIENT_RESULT test_id=tcp4-127.0.0.1:5-127.0.0.1:6 pid=3 local=127.0.0.1:5 \
         peer=127.0.0.1:6 planned_bytes=10 bytes_sent=10 bytes_received=10 verified=true \
         started_unix_ms=1 ended_unix_ms=2"
    );
    assert_eq!(fixture_udp::test_id(local, peer), "udp4-127.0.0.1:5-127.0.0.1:6");
}

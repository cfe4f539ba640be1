use beacon::protocol::{discovered_peer, ping_packet, reply_to_ping, AcceptSession, AcceptState};
use beacon::codec::{serialise_port, SocketAddr};
use beacon::guid::new_guid;

const OWN: [u8; 16] = [7; 16];

fn ping(guid: [u8; 16]) -> Vec<u8> {
    let mut p = b"maid".to_vec();
    p.extend_from_slice(&guid);
    p
}

#[test]
fn ping_without_avoidance() {
    let p = ping_packet(None);
    assert_eq!(p, ping([0; 16]));
    assert_eq!(p.len(), 20);
}

#[test]
fn ping_with_avoidance() {
    let g = [3u8; 16];
    assert_eq!(ping_packet(Some(g)), ping(g));
}

#[test]
fn foreign_ping_is_answered() {
    assert_eq!(reply_to_ping(&ping([1; 16]), &OWN, 700), Some(serialise_port(700)));
    assert_eq!(reply_to_ping(&ping_packet(None), &OWN, 0x1234), Some([0x34, 0x12]));
}

#[test]
fn own_ping_is_ignored() {
    assert_eq!(reply_to_ping(&ping(OWN), &OWN, 700), None);
    assert_eq!(reply_to_ping(&ping_packet(Some(OWN)), &OWN, 700), None);
}

#[test]
fn bad_magic_is_ignored() {
    let mut p = ping([1; 16]);
    p[3] = b'e';
    assert_eq!(reply_to_ping(&p, &OWN, 700), None);
}

#[test]
fn short_datagram_is_ignored() {
    let p = ping([1; 16]);
    assert_eq!(reply_to_ping(&p[..19], &OWN, 700), None);
    assert_eq!(reply_to_ping(b"maid", &OWN, 700), None);
    assert_eq!(reply_to_ping(&[], &OWN, 700), None);
}

#[test]
fn session_waits_for_port_and_replies_once() {
    let mut s = AcceptSession::new(OWN);
    assert_eq!(s.datagram(&ping([1; 16])), None);
    assert_eq!(s.state, AcceptState::AwaitingPort);
    s.port_published(700);
    assert_eq!(s.state, AcceptState::Listening { tcp_port: 700 });
    s.port_published(800);
    assert_eq!(s.state, AcceptState::Listening { tcp_port: 700 });
    assert_eq!(s.datagram(&ping(OWN)), None);
    assert!(!s.is_done());
    assert_eq!(s.datagram(&ping([1; 16])), Some(serialise_port(700)));
    assert!(s.is_done());
    assert_eq!(s.datagram(&ping([2; 16])), None);
    assert_eq!(s.guid, OWN);
}

#[test]
fn peer_from_reply() {
    let v4 = SocketAddr::V4 { octets: [192, 168, 0, 9], port: 40000 };
    assert_eq!(
        discovered_peer(v4, &serialise_port(700)),
        Some(SocketAddr::V4 { octets: [192, 168, 0, 9], port: 700 })
    );
    let v6 = SocketAddr::V6 { segments: [0xfe80, 0, 0, 0, 0, 0, 0, 1], port: 1, flowinfo: 5, scope_id: 3 };
    assert_eq!(
        discovered_peer(v6, &[0x34, 0x12]),
        Some(SocketAddr::V6 { segments: [0xfe80, 0, 0, 0, 0, 0, 0, 1], port: 0x1234, flowinfo: 0, scope_id: 0 })
    );
    assert_eq!(discovered_peer(v4, &[1]), None);
}

#[test]
fn guids_are_sixteen_random_bytes() {
    let a = new_guid().expect("the system's random source failed");
    let b = new_guid().expect("the system's random source failed");
    assert_eq!(a.len(), 16);
    assert_ne!(a, b);
}

#[test]
fn discovery_chain_names_listener_port() {
    let mut s = AcceptSession::new(OWN);
    s.port_published(700);
    let reply = s.datagram(&ping_packet(None)).expect("a foreign ping is answered");
    let source = SocketAddr::V4 { octets: [10, 0, 0, 5], port: 51000 };
    assert_eq!(discovered_peer(source, &reply), Some(SocketAddr::V4 { octets: [10, 0, 0, 5], port: 700 }));
    let mut t = AcceptSession::new(OWN);
    t.port_published(700);
    assert_eq!(t.datagram(&ping_packet(Some(OWN))), None);
}

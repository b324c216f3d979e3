use bili::live::fanout::{Distributor, RecvOutcome};
use bili::live::ws::{Operation, ProtoVer, WsPacket};

fn pkt(seq_id: u32) -> WsPacket {
    WsPacket {
        pkt_len: 16,
        hdr_len: 16,
        proto_ver: ProtoVer::Json,
        operation: Operation::Notification,
        seq_id,
        data: Vec::new(),
    }
}

fn expect_packet(r: RecvOutcome) -> WsPacket {
    match r {
        RecvOutcome::Packet(p) => p,
        other => panic!("expected a packet, got {:?}", other),
    }
}

#[test]
fn slow_subscriber_sees_lagged_then_last_ten_in_order() {
    let mut d = Distributor::new(10);
    let s = d.subscribe();
    for i in 1..=15u32 {
        d.send(pkt(i));
    }
    match d.recv(s) {
        RecvOutcome::Lagged(n) => assert_eq!(n, 5),
        other => panic!("expected a lag report, got {:?}", other),
    }
    for i in 6..=15u32 {
        assert_eq!(expect_packet(d.recv(s)).seq_id, i);
    }
    assert!(matches!(d.recv(s), RecvOutcome::Pending));
}

#[test]
fn two_subscribers_see_the_same_order() {
    let mut d = Distributor::new(10);
    let a = d.subscribe();
    let b = d.subscribe();
    for i in 1..=4u32 {
        d.send(pkt(i));
    }
    let seen_a: Vec<u32> = (0..4).map(|_| expect_packet(d.recv(a)).seq_id).collect();
    let seen_b: Vec<u32> = (0..4).map(|_| expect_packet(d.recv(b)).seq_id).collect();
    assert_eq!(seen_a, vec![1, 2, 3, 4]);
    assert_eq!(seen_b, seen_a);
}

#[test]
fn new_subscriber_gets_no_backlog() {
    let mut d = Distributor::new(10);
    let early = d.subscribe();
    d.send(pkt(1));
    let late = d.subscribe();
    d.send(pkt(2));
    assert_eq!(expect_packet(d.recv(early)).seq_id, 1);
    assert_eq!(expect_packet(d.recv(late)).seq_id, 2);
    assert!(matches!(d.recv(late), RecvOutcome::Pending));
}

#[test]
fn recv_on_open_empty_stream_is_pending() {
    let mut d = Distributor::new(10);
    let s = d.subscribe();
    assert!(matches!(d.recv(s), RecvOutcome::Pending));
}

#[test]
fn closed_stream_drains_then_reports_closed() {
    let mut d = Distributor::new(10);
    let s = d.subscribe();
    d.send(pkt(1));
    d.close();
    d.close();
    assert_eq!(expect_packet(d.recv(s)).seq_id, 1);
    assert!(matches!(d.recv(s), RecvOutcome::Closed));
    assert!(matches!(d.recv(s), RecvOutcome::Closed));
}

#[test]
fn unsubscribe_releases_the_buffer_and_is_idempotent() {
    let mut d = Distributor::new(10);
    let a = d.subscribe();
    let b = d.subscribe();
    d.send(pkt(1));
    d.unsubscribe(a);
    d.unsubscribe(a);
    d.send(pkt(2));
    assert_eq!(expect_packet(d.recv(b)).seq_id, 1);
    assert_eq!(expect_packet(d.recv(b)).seq_id, 2);
}

#[test]
fn lag_count_is_reported_once() {
    let mut d = Distributor::new(2);
    let s = d.subscribe();
    for i in 1..=5u32 {
        d.send(pkt(i));
    }
    match d.recv(s) {
        RecvOutcome::Lagged(n) => assert_eq!(n, 3),
        other => panic!("expected a lag report, got {:?}", other),
    }
    assert_eq!(expect_packet(d.recv(s)).seq_id, 4);
    assert_eq!(expect_packet(d.recv(s)).seq_id, 5);
    assert!(matches!(d.recv(s), RecvOutcome::Pending));
}

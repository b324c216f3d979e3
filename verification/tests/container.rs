use std::io::Write;

use bili::live::session::handle_frame;
use bili::live::ws::{unwrap_container, Operation, ProtoVer, WsPacket};
use bili::Error;

fn notification(seq_id: u32, data: Vec<u8>) -> WsPacket {
    WsPacket {
        pkt_len: 16 + data.len(),
        hdr_len: 16,
        proto_ver: ProtoVer::Json,
        operation: Operation::Notification,
        seq_id,
        data,
    }
}

fn compress(plain: &[u8]) -> Vec<u8> {
    let mut z = flate2::write::ZlibEncoder::new(Vec::new(), flate2::Compression::default());
    z.write_all(plain).unwrap();
    z.finish().unwrap()
}

fn container(plain: &[u8]) -> WsPacket {
    let body = compress(plain);
    WsPacket {
        pkt_len: 16 + body.len(),
        hdr_len: 16,
        proto_ver: ProtoVer::ZlibBuf,
        operation: Operation::Notification,
        seq_id: 1,
        data: body,
    }
}

#[test]
fn container_filled_by_n_packets_yields_n() {
    let packets: Vec<WsPacket> = (0..5).map(|i| notification(i, vec![i as u8; 3])).collect();
    let mut plain = Vec::new();
    for p in &packets {
        plain.extend_from_slice(&p.encode());
    }
    let out = unwrap_container(&plain).unwrap();
    assert_eq!(out, packets);
}

#[test]
fn container_with_short_final_packet_is_rejected_whole() {
    let mut plain = notification(1, vec![1, 2]).encode();
    let second = notification(2, vec![3, 4]).encode();
    plain.extend_from_slice(&second[..second.len() - 1]);
    assert_eq!(unwrap_container(&plain).unwrap_err(), Error::MalformedFrame);
}

#[test]
fn empty_container_plaintext_is_rejected() {
    assert_eq!(unwrap_container(&[]).unwrap_err(), Error::MalformedFrame);
}

#[test]
fn zlib_frame_yields_inner_packets_in_order() {
    let first = notification(1, vec![0xAA, 0xBB, 0xCC, 0xDD]);
    let second = notification(2, vec![0x11, 0x22, 0x33, 0x44]);
    assert_eq!(first.encode().len(), 20);
    assert_eq!(second.encode().len(), 20);
    let mut plain = first.encode();
    plain.extend_from_slice(&second.encode());
    let frame = container(&plain).encode();
    let out = handle_frame(&frame).unwrap();
    assert!(!out.trailing);
    assert_eq!(out.packets, vec![first, second]);
}

#[test]
fn corrupt_zlib_stream_is_malformed() {
    let mut pkt = container(&notification(1, vec![1]).encode());
    let last = pkt.data.len() - 1;
    pkt.data[last] ^= 0xFF;
    pkt.pkt_len = 16 + pkt.data.len();
    let frame = pkt.encode();
    assert_eq!(handle_frame(&frame).unwrap_err(), Error::MalformedFrame);
}

#[test]
fn malformed_inner_packet_rejects_the_frame() {
    let mut inner = notification(1, vec![1, 2, 3]).encode();
    inner[11] = 4;
    let frame = container(&inner).encode();
    assert_eq!(handle_frame(&frame).unwrap_err(), Error::MalformedFrame);
}

#[test]
fn plain_frame_yields_the_packet_itself() {
    let p = notification(9, vec![5, 6]);
    let out = handle_frame(&p.encode()).unwrap();
    assert!(!out.trailing);
    assert_eq!(out.packets, vec![p]);
}

#[test]
fn trailing_bytes_still_yield_the_packet() {
    let p = notification(3, vec![7]);
    let mut frame = p.encode();
    frame.extend_from_slice(&[0xDE, 0xAD]);
    let out = handle_frame(&frame).unwrap();
    assert!(out.trailing);
    assert_eq!(out.packets, vec![p]);
}

#[test]
fn malformed_outer_frame_is_rejected() {
    assert_eq!(handle_frame(&[0u8; 4]).unwrap_err(), Error::MalformedFrame);
}

use bili::live::ws::{Operation, ProtoVer, WsPacket};
use bili::Error;

fn packet(proto_ver: ProtoVer, operation: Operation, seq_id: u32, data: Vec<u8>) -> WsPacket {
    WsPacket {
        pkt_len: 16 + data.len(),
        hdr_len: 16,
        proto_ver,
        operation,
        seq_id,
        data,
    }
}

#[test]
fn heartbeat_bytes_are_constant() {
    let bytes = WsPacket::new_heartbeat().encode();
    assert_eq!(
        bytes,
        vec![
            0x00, 0x00, 0x00, 0x10, 0x00, 0x10, 0x00, 0x00, 0x00, 0x00, 0x00, 0x02, 0x00, 0x00,
            0x00, 0x01
        ]
    );
}

#[test]
fn encode_recomputes_stale_pkt_len() {
    let mut p = packet(ProtoVer::Json, Operation::Notification, 1, vec![1, 2, 3]);
    p.pkt_len = 0;
    let bytes = p.encode();
    assert_eq!(bytes.len(), 19);
    assert_eq!(&bytes[0..4], &[0x00, 0x00, 0x00, 0x13]);
}

#[test]
fn decode_then_encode_roundtrips() {
    let original = packet(ProtoVer::Json, Operation::Notification, 7, vec![9, 8, 7, 6, 5]);
    let bytes = original.encode();
    let (decoded, consumed) = WsPacket::decode(&bytes, 0).unwrap();
    assert_eq!(consumed, bytes.len());
    assert_eq!(decoded, original);
    assert_eq!(decoded.encode(), bytes);
}

#[test]
fn decode_reads_all_header_fields() {
    let bytes = packet(ProtoVer::ZlibBuf, Operation::EnteringReply, 42, vec![0xAB]).encode();
    let (p, _) = WsPacket::decode(&bytes, 0).unwrap();
    assert_eq!(p.pkt_len, 17);
    assert_eq!(p.hdr_len, 16);
    assert_eq!(p.proto_ver, ProtoVer::ZlibBuf);
    assert_eq!(p.operation, Operation::EnteringReply);
    assert_eq!(p.seq_id, 42);
    assert_eq!(p.data, vec![0xAB]);
}

#[test]
fn decode_at_offset() {
    let first = packet(ProtoVer::Json, Operation::Notification, 1, vec![1]).encode();
    let second = packet(ProtoVer::Json, Operation::Notification, 2, vec![2, 3]).encode();
    let mut buf = first.clone();
    buf.extend_from_slice(&second);
    let (p1, off) = WsPacket::decode(&buf, 0).unwrap();
    assert_eq!(p1.seq_id, 1);
    let (p2, end) = WsPacket::decode(&buf, off).unwrap();
    assert_eq!(p2.seq_id, 2);
    assert_eq!(p2.data, vec![2, 3]);
    assert_eq!(end, buf.len());
}

#[test]
fn decode_short_buffer_is_malformed() {
    assert_eq!(
        WsPacket::decode(&[0u8; 15], 0).unwrap_err(),
        Error::MalformedFrame
    );
}

#[test]
fn decode_truncated_body_is_malformed() {
    let mut bytes = packet(ProtoVer::Json, Operation::Notification, 1, vec![1, 2, 3]).encode();
    bytes.pop();
    assert_eq!(WsPacket::decode(&bytes, 0).unwrap_err(), Error::MalformedFrame);
}

#[test]
fn decode_wrong_hdr_len_is_malformed() {
    let mut bytes = packet(ProtoVer::Json, Operation::Notification, 1, vec![]).encode();
    bytes[5] = 15;
    assert_eq!(WsPacket::decode(&bytes, 0).unwrap_err(), Error::MalformedFrame);
    bytes[5] = 17;
    assert_eq!(WsPacket::decode(&bytes, 0).unwrap_err(), Error::MalformedFrame);
}

#[test]
fn decode_pkt_len_below_header_is_malformed() {
    let mut bytes = packet(ProtoVer::Json, Operation::Notification, 1, vec![]).encode();
    bytes[3] = 15;
    assert_eq!(WsPacket::decode(&bytes, 0).unwrap_err(), Error::MalformedFrame);
}

#[test]
fn decode_unknown_operation_is_malformed() {
    let mut bytes = packet(ProtoVer::Json, Operation::Notification, 1, vec![]).encode();
    bytes[11] = 4;
    assert_eq!(WsPacket::decode(&bytes, 0).unwrap_err(), Error::MalformedFrame);
}

#[test]
fn decode_unknown_proto_ver_code_is_malformed() {
    let mut bytes = packet(ProtoVer::Json, Operation::Notification, 1, vec![]).encode();
    bytes[7] = 9;
    assert_eq!(WsPacket::decode(&bytes, 0).unwrap_err(), Error::MalformedFrame);
}

#[test]
fn decode_reserved_proto_ver_succeeds_as_unknown() {
    let bytes = packet(ProtoVer::Unknown, Operation::Notification, 1, vec![0xFF]).encode();
    let (p, _) = WsPacket::decode(&bytes, 0).unwrap();
    assert_eq!(p.proto_ver, ProtoVer::Unknown);
    assert_eq!(p.encode(), bytes);
}

#[test]
fn json_body_roundtrips_through_decode_body() {
    let body = br#"{"cmd":"DANMU_MSG"}"#.to_vec();
    let p = WsPacket::new_json(body.clone(), Operation::Notification);
    assert_eq!(p.pkt_len, 16 + body.len());
    assert_eq!(p.seq_id, 1);
    assert_eq!(p.decode_body().unwrap(), body);
}

#[test]
fn decode_body_of_non_json_is_a_mismatch() {
    let p = packet(ProtoVer::Int32BE, Operation::HeartBeatReply, 1, vec![0, 0, 0, 1]);
    assert_eq!(p.decode_body().unwrap_err(), Error::DecodeMismatch);
}

#[test]
fn popularity_frame_decodes_to_ten_thousand() {
    let bytes: Vec<u8> = vec![
        0x00, 0x00, 0x00, 0x14, 0x00, 0x10, 0x00, 0x01, 0x00, 0x00, 0x00, 0x03, 0x00, 0x00, 0x00,
        0x01, 0x00, 0x00, 0x27, 0x10,
    ];
    let (p, consumed) = WsPacket::decode(&bytes, 0).unwrap();
    assert_eq!(consumed, 20);
    assert_eq!(p.operation, Operation::HeartBeatReply);
    assert_eq!(p.popularity(), Some(10000));
}

#[test]
fn popularity_is_signed() {
    let p = packet(
        ProtoVer::Int32BE,
        Operation::HeartBeatReply,
        1,
        vec![0xFF, 0xFF, 0xFF, 0xFE],
    );
    assert_eq!(p.popularity(), Some(-2));
}

#[test]
fn popularity_needs_a_heartbeat_reply_with_four_bytes() {
    let wrong_op = packet(ProtoVer::Int32BE, Operation::Notification, 1, vec![0, 0, 0, 1]);
    assert_eq!(wrong_op.popularity(), None);
    let wrong_len = packet(ProtoVer::Int32BE, Operation::HeartBeatReply, 1, vec![0, 0, 1]);
    assert_eq!(wrong_len.popularity(), None);
}

//! The framed binary packet codec.
//!
//! A packet is laid out big-endian on the wire: a 32-bit total length, a
//! 16-bit header length (always 16), a 16-bit protocol version, a 32-bit
//! operation, a 32-bit sequence id, and the body. A packet whose protocol
//! version is `ZlibBuf` carries a zlib stream whose plaintext is one or more
//! complete inner packets, concatenated.
use vstd::prelude::*;

use crate::error::Error;
use crate::live::json::{push_dec_u64, push_json_escaped, push_lit_close, push_lit_key, push_lit_platform, push_lit_protover, push_lit_roomid, push_lit_type, push_lit_uid, spec_entering_json};

verus! {

use vstd::arithmetic::div_mod::{
    lemma_div_denominator,
    lemma_fundamental_div_mod,
    lemma_fundamental_div_mod_converse,
    lemma_small_mod,
};

/// Protocol version of a packet body.
#[derive(Clone, Copy, Debug, PartialEq, Eq, Structural)]
pub enum ProtoVer {
    /// The body is JSON.
    Json,
    /// The body is a single big-endian `i32`.
    Int32BE,
    /// The body is a zlib stream of concatenated inner packets.
    ZlibBuf,
    /// Reserved; round-trips rather than failing.
    Unknown,
}

/// Operation of a packet.
#[derive(Clone, Copy, Debug, PartialEq, Eq, Structural)]
pub enum Operation {
    HeartBeat,
    HeartBeatReply,
    Notification,
    Entering,
    EnteringReply,
}

/// The wire code of a protocol version.
pub open spec fn proto_ver_code(p: ProtoVer) -> nat {
    match p {
        ProtoVer::Json => 0,
        ProtoVer::Int32BE => 1,
        ProtoVer::ZlibBuf => 2,
        ProtoVer::Unknown => 3,
    }
}

/// The protocol version a wire code stands for, if any.
pub open spec fn proto_ver_of(n: nat) -> Option<ProtoVer> {
    if n == 0 {
        Some(ProtoVer::Json)
    } else if n == 1 {
        Some(ProtoVer::Int32BE)
    } else if n == 2 {
        Some(ProtoVer::ZlibBuf)
    } else if n == 3 {
        Some(ProtoVer::Unknown)
    } else {
        None
    }
}

/// The wire code of an operation.
pub open spec fn operation_code(o: Operation) -> nat {
    match o {
        Operation::HeartBeat => 2,
        Operation::HeartBeatReply => 3,
        Operation::Notification => 5,
        Operation::Entering => 7,
        Operation::EnteringReply => 8,
    }
}

/// The operation a wire code stands for, if any.
pub open spec fn operation_of(n: nat) -> Option<Operation> {
    if n == 2 {
        Some(Operation::HeartBeat)
    } else if n == 3 {
        Some(Operation::HeartBeatReply)
    } else if n == 5 {
        Some(Operation::Notification)
    } else if n == 7 {
        Some(Operation::Entering)
    } else if n == 8 {
        Some(Operation::EnteringReply)
    } else {
        None
    }
}

/// One framed packet, in memory.
#[derive(Debug, PartialEq, Eq)]
pub struct WsPacket {
    /// Total packet length in bytes, header included.
    pub pkt_len: usize,
    /// Header length; 16 on every decoded packet.
    pub hdr_len: usize,
    pub proto_ver: ProtoVer,
    pub operation: Operation,
    pub seq_id: u32,
    /// The body: `pkt_len - hdr_len` bytes.
    pub data: Vec<u8>,
}

/// The mathematical model of a packet.
pub struct WsPacketModel {
    pub pkt_len: int,
    pub hdr_len: int,
    pub proto_ver: ProtoVer,
    pub operation: Operation,
    pub seq_id: u32,
    pub data: Seq<u8>,
}

impl View for WsPacket {
    type V = WsPacketModel;

    open spec fn view(&self) -> WsPacketModel {
        WsPacketModel {
            pkt_len: self.pkt_len as int,
            hdr_len: self.hdr_len as int,
            proto_ver: self.proto_ver,
            operation: self.operation,
            seq_id: self.seq_id,
            data: self.data@,
        }
    }
}

impl Clone for WsPacket {
    fn clone(&self) -> (r: Self)
        ensures
            r@ == self@,
    {
        let data = clone_bytes(&self.data);
        WsPacket {
            pkt_len: self.pkt_len,
            hdr_len: self.hdr_len,
            proto_ver: self.proto_ver,
            operation: self.operation,
            seq_id: self.seq_id,
            data,
        }
    }
}

/// Copy a byte vector.
fn clone_bytes(v: &Vec<u8>) -> (r: Vec<u8>)
    ensures
        r@ == v@,
{
    let mut r: Vec<u8> = Vec::new();
    let mut i: usize = 0;
    while i < v.len()
        invariant
            i <= v@.len(),
            r@ == v@.subrange(0, i as int),
        decreases v@.len() - i,
    {
        r.push(v[i]);
        i = i + 1;
        proof {
            assert(r@ =~= v@.subrange(0, i as int));
        }
    }
    proof {
        assert(r@ =~= v@);
    }
    r
}

/// A well-formed packet: the header length is 16, the total length counts the
/// header and the body, and it fits the 32-bit wire field.
pub open spec fn wf_packet(p: WsPacketModel) -> bool {
    &&& p.hdr_len == 16
    &&& p.pkt_len == 16 + p.data.len()
    &&& p.pkt_len <= u32::MAX
}

/// The big-endian 16-bit value at position `i`.
pub open spec fn be16_at(b: Seq<u8>, i: int) -> nat {
    (b[i] as nat) * 0x100 + (b[i + 1] as nat)
}

/// The big-endian 32-bit value at position `i`.
pub open spec fn be32_at(b: Seq<u8>, i: int) -> nat {
    (b[i] as nat) * 0x1000000 + (b[i + 1] as nat) * 0x10000 + (b[i + 2] as nat) * 0x100 + (b[i
        + 3] as nat)
}

/// The two big-endian bytes of a 16-bit value.
pub open spec fn be16_bytes(n: nat) -> Seq<u8> {
    seq![((n / 0x100) % 0x100) as u8, (n % 0x100) as u8]
}

/// The four big-endian bytes of a 32-bit value.
pub open spec fn be32_bytes(n: nat) -> Seq<u8> {
    seq![
        ((n / 0x1000000) % 0x100) as u8,
        ((n / 0x10000) % 0x100) as u8,
        ((n / 0x100) % 0x100) as u8,
        (n % 0x100) as u8,
    ]
}

/// The division-and-remainder digits of a two-byte big-endian value.
proof fn lemma_be16_digits(a: nat, e: nat)
    requires
        a < 0x100,
        e < 0x100,
    ensures
        (a * 0x100 + e) / 0x100 % 0x100 == a,
        (a * 0x100 + e) % 0x100 == e,
{
    lemma_fundamental_div_mod_converse((a * 0x100 + e) as int, 0x100, a as int, e as int);
    lemma_small_mod(a, 0x100);
}

/// The division-and-remainder digits of a four-byte big-endian value.
proof fn lemma_be32_digits(a: nat, c: nat, d: nat, e: nat)
    requires
        a < 0x100,
        c < 0x100,
        d < 0x100,
        e < 0x100,
    ensures
        (a * 0x1000000 + c * 0x10000 + d * 0x100 + e) / 0x1000000 % 0x100 == a,
        (a * 0x1000000 + c * 0x10000 + d * 0x100 + e) / 0x10000 % 0x100 == c,
        (a * 0x1000000 + c * 0x10000 + d * 0x100 + e) / 0x100 % 0x100 == d,
        (a * 0x1000000 + c * 0x10000 + d * 0x100 + e) % 0x100 == e,
{
    let n = (a * 0x1000000 + c * 0x10000 + d * 0x100 + e) as int;
    lemma_fundamental_div_mod_converse(
        n,
        0x1000000,
        a as int,
        (c * 0x10000 + d * 0x100 + e) as int,
    );
    lemma_small_mod(a, 0x100);
    lemma_fundamental_div_mod_converse(n, 0x10000, (a * 0x100 + c) as int, (d * 0x100 + e) as int);
    lemma_fundamental_div_mod_converse((a * 0x100 + c) as int, 0x100, a as int, c as int);
    lemma_fundamental_div_mod_converse(
        n,
        0x100,
        (a * 0x10000 + c * 0x100 + d) as int,
        e as int,
    );
    lemma_fundamental_div_mod_converse(
        (a * 0x10000 + c * 0x100 + d) as int,
        0x100,
        (a * 0x100 + c) as int,
        d as int,
    );
}

/// Reading back the two bytes of a 16-bit value gives the value.
pub proof fn lemma_be16_roundtrip(n: nat)
    requires
        n < 0x10000,
    ensures
        be16_at(be16_bytes(n), 0) == n,
{
    lemma_fundamental_div_mod(n as int, 0x100);
    lemma_small_mod((n / 0x100) as nat, 0x100);
}

/// Reading back the four bytes of a 32-bit value gives the value.
pub proof fn lemma_be32_roundtrip(n: nat)
    requires
        n < 0x100000000,
    ensures
        be32_at(be32_bytes(n), 0) == n,
{
    let q1 = n as int / 0x100;
    let q2 = n as int / 0x10000;
    let q3 = n as int / 0x1000000;
    lemma_div_denominator(n as int, 0x100, 0x100);
    lemma_div_denominator(n as int, 0x10000, 0x100);
    lemma_fundamental_div_mod(n as int, 0x100);
    lemma_fundamental_div_mod(q1, 0x100);
    lemma_fundamental_div_mod(q2, 0x100);
    lemma_small_mod(q3 as nat, 0x100);
}

/// The bytes of the 16-bit value read at `i` are the two bytes at `i`.
pub proof fn lemma_be16_extract(b: Seq<u8>, i: int)
    requires
        0 <= i,
        i + 2 <= b.len(),
    ensures
        be16_bytes(be16_at(b, i)) =~= b.subrange(i, i + 2),
{
    lemma_be16_digits(b[i] as nat, b[i + 1] as nat);
}

/// The bytes of the 32-bit value read at `i` are the four bytes at `i`.
pub proof fn lemma_be32_extract(b: Seq<u8>, i: int)
    requires
        0 <= i,
        i + 4 <= b.len(),
    ensures
        be32_bytes(be32_at(b, i)) =~= b.subrange(i, i + 4),
{
    lemma_be32_digits(b[i] as nat, b[i + 1] as nat, b[i + 2] as nat, b[i + 3] as nat);
}

/// The serialized form of a packet.
pub open spec fn spec_encode(p: WsPacketModel) -> Seq<u8> {
    be32_bytes(p.pkt_len as nat) + be16_bytes(p.hdr_len as nat) + be16_bytes(
        proto_ver_code(p.proto_ver),
    ) + be32_bytes(operation_code(p.operation)) + be32_bytes(p.seq_id as nat) + p.data
}

/// A packet, with its total length recomputed from its header length and its
/// body, as serialization emits it.
pub open spec fn renumbered(p: WsPacketModel) -> WsPacketModel {
    WsPacketModel { pkt_len: p.hdr_len + p.data.len(), ..p }
}

/// Whether one whole packet can be decoded from `b` at position `off`: the
/// sixteen header bytes are there, the header length field is 16, the total
/// length covers the header and lies within `b`, and both enum fields hold
/// known codes (the reserved protocol version 3 among them).
pub open spec fn spec_can_decode(b: Seq<u8>, off: int) -> bool {
    &&& 0 <= off
    &&& off + 16 <= b.len()
    &&& be16_at(b, off + 4) == 16
    &&& be32_at(b, off) >= 16
    &&& off + be32_at(b, off) <= b.len()
    &&& proto_ver_of(be16_at(b, off + 6)) is Some
    &&& operation_of(be32_at(b, off + 8)) is Some
}

/// The packet decoded from `b` at position `off`, when one can be.
pub open spec fn spec_decoded(b: Seq<u8>, off: int) -> WsPacketModel {
    WsPacketModel {
        pkt_len: be32_at(b, off) as int,
        hdr_len: 16,
        proto_ver: proto_ver_of(be16_at(b, off + 6))->0,
        operation: operation_of(be32_at(b, off + 8))->0,
        seq_id: be32_at(b, off + 12) as u32,
        data: b.subrange(off + 16, off + be32_at(b, off)),
    }
}

/// Append the two big-endian bytes of `n`.
fn push_be16(v: &mut Vec<u8>, n: u16)
    ensures
        final(v)@ == old(v)@ + be16_bytes(n as nat),
{
    v.push((n / 0x100) as u8);
    v.push((n % 0x100) as u8);
    proof {
        assert(v@ =~= old(v)@ + be16_bytes(n as nat));
    }
}

/// Append the four big-endian bytes of `n`.
fn push_be32(v: &mut Vec<u8>, n: u32)
    ensures
        final(v)@ == old(v)@ + be32_bytes(n as nat),
{
    v.push((n / 0x1000000) as u8);
    v.push((n / 0x10000 % 0x100) as u8);
    v.push((n / 0x100 % 0x100) as u8);
    v.push((n % 0x100) as u8);
    proof {
        assert(v@ =~= old(v)@ + be32_bytes(n as nat));
    }
}

/// The big-endian 16-bit value at position `i`.
fn read_be16(b: &[u8], i: usize) -> (r: u16)
    requires
        i + 2 <= b@.len(),
    ensures
        r as nat == be16_at(b@, i as int),
{
    (b[i] as u16) * 0x100 + (b[i + 1] as u16)
}

/// The big-endian 32-bit value at position `i`.
fn read_be32(b: &[u8], i: usize) -> (r: u32)
    requires
        i + 4 <= b@.len(),
    ensures
        r as nat == be32_at(b@, i as int),
{
    (b[i] as u32) * 0x1000000 + (b[i + 1] as u32) * 0x10000 + (b[i + 2] as u32) * 0x100 + (b[i
        + 3] as u32)
}

/// The protocol version a wire code stands for, if any.
pub fn proto_ver_from_u16(n: u16) -> (r: Option<ProtoVer>)
    ensures
        r == proto_ver_of(n as nat),
{
    if n == 0 {
        Some(ProtoVer::Json)
    } else if n == 1 {
        Some(ProtoVer::Int32BE)
    } else if n == 2 {
        Some(ProtoVer::ZlibBuf)
    } else if n == 3 {
        Some(ProtoVer::Unknown)
    } else {
        None
    }
}

/// The wire code of a protocol version.
pub fn proto_ver_to_u16(p: ProtoVer) -> (r: u16)
    ensures
        r as nat == proto_ver_code(p),
{
    match p {
        ProtoVer::Json => 0,
        ProtoVer::Int32BE => 1,
        ProtoVer::ZlibBuf => 2,
        ProtoVer::Unknown => 3,
    }
}

/// The operation a wire code stands for, if any.
pub fn operation_from_u32(n: u32) -> (r: Option<Operation>)
    ensures
        r == operation_of(n as nat),
{
    if n == 2 {
        Some(Operation::HeartBeat)
    } else if n == 3 {
        Some(Operation::HeartBeatReply)
    } else if n == 5 {
        Some(Operation::Notification)
    } else if n == 7 {
        Some(Operation::Entering)
    } else if n == 8 {
        Some(Operation::EnteringReply)
    } else {
        None
    }
}

/// The wire code of an operation.
pub fn operation_to_u32(o: Operation) -> (r: u32)
    ensures
        r as nat == operation_code(o),
{
    match o {
        Operation::HeartBeat => 2,
        Operation::HeartBeatReply => 3,
        Operation::Notification => 5,
        Operation::Entering => 7,
        Operation::EnteringReply => 8,
    }
}

impl WsPacket {
    /// Serialize the packet. The total length is recomputed from the header
    /// length and the body, so a stale `pkt_len` is corrected silently.
    pub fn encode(&self) -> (r: Vec<u8>)
        requires
            self@.hdr_len <= u16::MAX,
            self@.hdr_len + self@.data.len() <= u32::MAX,
        ensures
            r@ == spec_encode(renumbered(self@)),
            r@.len() == 16 + self@.data.len(),
    {
        let pkt_len: u64 = (self.hdr_len as u64) + (self.data.len() as u64);
        let mut out: Vec<u8> = Vec::new();
        push_be32(&mut out, pkt_len as u32);
        push_be16(&mut out, self.hdr_len as u16);
        push_be16(&mut out, proto_ver_to_u16(self.proto_ver));
        push_be32(&mut out, operation_to_u32(self.operation));
        push_be32(&mut out, self.seq_id);
        let mut i: usize = 0;
        while i < self.data.len()
            invariant
                i <= self@.data.len(),
                out@ == spec_encode(renumbered(self@)).subrange(0, 16 + i as int),
                self@.hdr_len + self@.data.len() <= u32::MAX,
                self@.hdr_len <= u16::MAX,
            decreases self@.data.len() - i,
        {
            out.push(self.data[i]);
            i = i + 1;
            proof {
                assert(out@ =~= spec_encode(renumbered(self@)).subrange(0, 16 + i as int));
            }
        }
        proof {
            assert(out@ =~= spec_encode(renumbered(self@)));
        }
        out
    }

    /// Parse one packet from `bytes` starting at `offset`. On success the new
    /// offset, just past the packet, is returned beside it; anything short,
    /// mis-sized or holding an unknown code is a malformed frame.
    pub fn decode(bytes: &[u8], offset: usize) -> (r: Result<(WsPacket, usize), Error>)
        ensures
            r is Ok <==> spec_can_decode(bytes@, offset as int),
            r matches Ok((p, no)) ==> p@ == spec_decoded(bytes@, offset as int) && no == offset
                + be32_at(bytes@, offset as int),
            r matches Err(e) ==> e == Error::MalformedFrame,
    {
        if bytes.len() < 16 || offset > bytes.len() - 16 {
            return Err(Error::MalformedFrame);
        }
        let pkt_len: u32 = read_be32(bytes, offset);
        let hdr_len: u16 = read_be16(bytes, offset + 4);
        if hdr_len != 16 {
            return Err(Error::MalformedFrame);
        }
        if pkt_len < 16 {
            return Err(Error::MalformedFrame);
        }
        if (pkt_len as u64) > (bytes.len() - offset) as u64 {
            return Err(Error::MalformedFrame);
        }
        let proto_ver = match proto_ver_from_u16(read_be16(bytes, offset + 6)) {
            Some(p) => p,
            None => {
                return Err(Error::MalformedFrame);
            },
        };
        let operation = match operation_from_u32(read_be32(bytes, offset + 8)) {
            Some(o) => o,
            None => {
                return Err(Error::MalformedFrame);
            },
        };
        let seq_id: u32 = read_be32(bytes, offset + 12);
        let end: usize = offset + pkt_len as usize;
        let body = vstd::slice::slice_subrange(bytes, offset + 16, end);
        let data = vstd::slice::slice_to_vec(body);
        let pkt = WsPacket {
            pkt_len: pkt_len as usize,
            hdr_len: 16,
            proto_ver,
            operation,
            seq_id,
            data,
        };
        Ok((pkt, end))
    }
}

/// Serializing what was decoded gives back the bytes: a buffer that holds
/// exactly one packet round-trips through the codec.
pub proof fn lemma_decode_encode(b: Seq<u8>)
    requires
        spec_can_decode(b, 0),
        be32_at(b, 0) == b.len(),
    ensures
        wf_packet(spec_decoded(b, 0)),
        spec_encode(spec_decoded(b, 0)) == b,
{
    let p = spec_decoded(b, 0);
    lemma_be32_extract(b, 0);
    lemma_be16_extract(b, 4);
    lemma_be16_extract(b, 6);
    lemma_be32_extract(b, 8);
    lemma_be32_extract(b, 12);
    assert(proto_ver_code(p.proto_ver) == be16_at(b, 6));
    assert(operation_code(p.operation) == be32_at(b, 8));
    assert(p.seq_id as nat == be32_at(b, 12));
    assert(spec_encode(p) =~= b);
}

/// A well-formed packet decodes from its own serialization, whole.
pub proof fn lemma_encode_decode(p: WsPacketModel)
    requires
        wf_packet(p),
    ensures
        spec_encode(p).len() == p.pkt_len,
        be32_at(spec_encode(p), 0) == p.pkt_len,
        spec_can_decode(spec_encode(p), 0),
        spec_decoded(spec_encode(p), 0) == p,
{
    let e = spec_encode(p);
    assert(e.subrange(0, 4) =~= be32_bytes(p.pkt_len as nat));
    assert(e.subrange(4, 6) =~= be16_bytes(16));
    assert(e.subrange(6, 8) =~= be16_bytes(proto_ver_code(p.proto_ver)));
    assert(e.subrange(8, 12) =~= be32_bytes(operation_code(p.operation)));
    assert(e.subrange(12, 16) =~= be32_bytes(p.seq_id as nat));
    lemma_be32_roundtrip(p.pkt_len as nat);
    lemma_be16_roundtrip(16);
    lemma_be16_roundtrip(proto_ver_code(p.proto_ver));
    lemma_be32_roundtrip(operation_code(p.operation));
    lemma_be32_roundtrip(p.seq_id as nat);
    assert(be32_at(e, 0) == be32_at(be32_bytes(p.pkt_len as nat), 0));
    assert(be16_at(e, 4) == be16_at(be16_bytes(16), 0));
    assert(be16_at(e, 6) == be16_at(be16_bytes(proto_ver_code(p.proto_ver)), 0));
    assert(be32_at(e, 8) == be32_at(be32_bytes(operation_code(p.operation)), 0));
    assert(be32_at(e, 12) == be32_at(be32_bytes(p.seq_id as nat), 0));
    assert(e.subrange(16, be32_at(e, 0) as int) =~= p.data);
}

/// What one packet decodes to depends only on the bytes from its offset on.
pub proof fn lemma_decode_shift(b: Seq<u8>, off: int)
    requires
        0 <= off <= b.len(),
    ensures
        spec_can_decode(b, off) == spec_can_decode(b.subrange(off, b.len() as int), 0),
        spec_can_decode(b, off) ==> spec_decoded(b, off) == spec_decoded(
            b.subrange(off, b.len() as int),
            0,
        ),
        spec_can_decode(b, off) ==> be32_at(b, off) == be32_at(
            b.subrange(off, b.len() as int),
            0,
        ),
    {
    let s = b.subrange(off, b.len() as int);
    if off + 16 <= b.len() {
        assert(be32_at(s, 0) == be32_at(b, off));
        assert(be16_at(s, 4) == be16_at(b, off + 4));
        assert(be16_at(s, 6) == be16_at(b, off + 6));
        assert(be32_at(s, 8) == be32_at(b, off + 8));
        assert(be32_at(s, 12) == be32_at(b, off + 12));
        if spec_can_decode(b, off) {
            assert(s.subrange(16, be32_at(s, 0) as int) =~= b.subrange(
                off + 16,
                off + be32_at(b, off),
            ));
        }
    }
}

/// A packet that fills its buffer still decodes, unchanged, when more bytes
/// follow it.
pub proof fn lemma_decode_prefix(b1: Seq<u8>, b2: Seq<u8>)
    requires
        spec_can_decode(b1, 0),
        be32_at(b1, 0) == b1.len(),
    ensures
        spec_can_decode(b1 + b2, 0),
        spec_decoded(b1 + b2, 0) == spec_decoded(b1, 0),
        be32_at(b1 + b2, 0) == b1.len(),
{
    let c = b1 + b2;
    assert(be32_at(c, 0) == be32_at(b1, 0));
    assert(be16_at(c, 4) == be16_at(b1, 4));
    assert(be16_at(c, 6) == be16_at(b1, 6));
    assert(be32_at(c, 8) == be32_at(b1, 8));
    assert(be32_at(c, 12) == be32_at(b1, 12));
    assert(c.subrange(16, be32_at(c, 0) as int) =~= b1.subrange(16, be32_at(b1, 0) as int));
}

/// The packets a container's plaintext holds: inner packets decoded from
/// position 0 until the buffer is exhausted, or nothing when the plaintext is
/// empty, a packet is malformed, or a short tail remains.
pub open spec fn spec_unwrap(b: Seq<u8>) -> Option<Seq<WsPacketModel>>
    decreases b.len(),
{
    if !spec_can_decode(b, 0) {
        None
    } else {
        let n = be32_at(b, 0) as int;
        if n == b.len() {
            Some(seq![spec_decoded(b, 0)])
        } else {
            match spec_unwrap(b.subrange(n, b.len() as int)) {
                Some(ps) => Some(seq![spec_decoded(b, 0)] + ps),
                None => None,
            }
        }
    }
}

/// The concatenated serializations of a sequence of packets.
pub open spec fn spec_encode_all(ps: Seq<WsPacketModel>) -> Seq<u8>
    decreases ps.len(),
{
    if ps.len() == 0 {
        Seq::empty()
    } else {
        spec_encode(ps[0]) + spec_encode_all(ps.drop_first())
    }
}

/// The serialization of at least one well-formed packet holds at least one
/// header.
pub proof fn lemma_encode_all_len(ps: Seq<WsPacketModel>)
    requires
        ps.len() >= 1,
        forall|i: int| 0 <= i < ps.len() ==> wf_packet(#[trigger] ps[i]),
    ensures
        spec_encode_all(ps).len() >= 16,
    decreases ps.len(),
{
    lemma_encode_decode(ps[0]);
}

/// Unwrapping a container's plaintext yields exactly the packets that were
/// packed into it, in their order and no others: for well-formed inner
/// packets, decoding the concatenation of their serializations gives back
/// that very sequence.
#[verifier::spinoff_prover]
#[verifier::rlimit(100)]
pub proof fn lemma_unwrap_encode_all(ps: Seq<WsPacketModel>)
    requires
        ps.len() >= 1,
        forall|i: int| 0 <= i < ps.len() ==> wf_packet(#[trigger] ps[i]),
    ensures
        spec_unwrap(spec_encode_all(ps)) == Some(ps),
    decreases ps.len(),
{
    let b = spec_encode_all(ps);
    let p0 = ps[0];
    lemma_encode_decode(p0);
    if ps.len() == 1 {
        assert(spec_encode_all(ps.drop_first()) =~= Seq::<u8>::empty());
        assert(b =~= spec_encode(p0));
        assert(spec_unwrap(b) == Some(seq![p0]));
        assert(seq![p0] =~= ps);
    } else {
        let tail = ps.drop_first();
        let rest = spec_encode_all(tail);
        assert(forall|i: int| 0 <= i < tail.len() ==> wf_packet(#[trigger] tail[i]));
        lemma_encode_all_len(tail);
        lemma_decode_prefix(spec_encode(p0), rest);
        let n = be32_at(b, 0) as int;
        assert(n == spec_encode(p0).len());
        assert(n < b.len());
        assert(b.subrange(n, b.len() as int) =~= rest);
        lemma_unwrap_encode_all(tail);
        assert(spec_unwrap(b) == Some(seq![p0] + tail));
        assert(seq![p0] + tail =~= ps);
    }
}

/// The models of a sequence of packets.
pub open spec fn views_of(s: Seq<WsPacket>) -> Seq<WsPacketModel> {
    s.map_values(|p: WsPacket| p@)
}

/// Decode the plaintext of a zlib container: inner packets from position 0
/// until the buffer is exhausted. An empty plaintext, a malformed inner
/// packet, or a short tail rejects the whole container.
pub fn unwrap_container(plain: &[u8]) -> (r: Result<Vec<WsPacket>, Error>)
    ensures
        r is Ok <==> spec_unwrap(plain@) is Some,
        r matches Ok(ps) ==> Some(views_of(ps@)) == spec_unwrap(plain@),
        r matches Err(e) ==> e == Error::MalformedFrame,
{
    let mut acc: Vec<WsPacket> = Vec::new();
    let mut off: usize = 0;
    proof {
        assert(plain@.subrange(0, plain@.len() as int) =~= plain@);
        assert(views_of(acc@) =~= Seq::<WsPacketModel>::empty());
    }
    loop
        invariant
            off <= plain@.len(),
            off < plain@.len() || off == 0,
            (match spec_unwrap(plain@.subrange(off as int, plain@.len() as int)) {
                Some(ps) => spec_unwrap(plain@) == Some(views_of(acc@) + ps),
                None => spec_unwrap(plain@) is None,
            }),
        decreases plain@.len() - off,
    {
        let ghost rest = plain@.subrange(off as int, plain@.len() as int);
        proof {
            lemma_decode_shift(plain@, off as int);
        }
        match WsPacket::decode(plain, off) {
            Err(_) => {
                return Err(Error::MalformedFrame);
            },
            Ok((pkt, no)) => {
                let ghost rest_new = plain@.subrange(no as int, plain@.len() as int);
                proof {
                    assert(rest.subrange(
                        be32_at(rest, 0) as int,
                        rest.len() as int,
                    ) =~= rest_new);
                    assert(views_of(acc@.push(pkt)) =~= views_of(acc@) + seq![pkt@]);
                }
                acc.push(pkt);
                if no == plain.len() {
                    proof {
                        assert(spec_unwrap(rest) == Some(seq![spec_decoded(rest, 0)]));
                        assert(views_of(acc@) =~= views_of(acc@.drop_last()) + seq![
                            spec_decoded(rest, 0),
                        ]);
                    }
                    return Ok(acc);
                }
                proof {
                    assert(views_of(acc@) + spec_unwrap(rest_new)->0 =~= views_of(
                        acc@.drop_last(),
                    ) + (seq![spec_decoded(rest, 0)] + spec_unwrap(rest_new)->0));
                }
                off = no;
            },
        }
    }
}

/// The heartbeat packet: empty JSON body, sequence id 1.
pub open spec fn spec_heartbeat() -> WsPacketModel {
    WsPacketModel {
        pkt_len: 16,
        hdr_len: 16,
        proto_ver: ProtoVer::Json,
        operation: Operation::HeartBeat,
        seq_id: 1,
        data: Seq::empty(),
    }
}

/// The heartbeat packet's bytes are constant.
pub proof fn lemma_heartbeat_bytes()
    ensures
        spec_encode(spec_heartbeat()) =~= seq![
            0u8,
            0,
            0,
            0x10,
            0,
            0x10,
            0,
            0,
            0,
            0,
            0,
            2,
            0,
            0,
            0,
            1,
        ],
{
}

/// The packet that frames a JSON body under an operation.
pub open spec fn spec_new_json(body: Seq<u8>, operation: Operation) -> WsPacketModel {
    WsPacketModel {
        pkt_len: 16 + body.len() as int,
        hdr_len: 16,
        proto_ver: ProtoVer::Json,
        operation,
        seq_id: 1,
        data: body,
    }
}

/// The body a packet yields: its data, when the body is JSON.
pub open spec fn spec_decode_body(p: WsPacketModel) -> Option<Seq<u8>> {
    if p.proto_ver == ProtoVer::Json {
        Some(p.data)
    } else {
        None
    }
}

/// Reading the body back out of a freshly framed JSON packet gives exactly
/// that body, whatever the body and the operation.
pub proof fn lemma_body_roundtrip(body: Seq<u8>, operation: Operation)
    ensures
        spec_decode_body(spec_new_json(body, operation)) == Some(body),
{
}

impl WsPacket {
    /// Frame an already-serialized JSON body under the given operation, with
    /// sequence id 1.
    pub fn new_json(body: Vec<u8>, operation: Operation) -> (r: Self)
        requires
            body@.len() + 16 <= u32::MAX,
        ensures
            r@ == spec_new_json(body@, operation),
    {
        let pkt_len: usize = 16 + body.len();
        WsPacket { pkt_len, hdr_len: 16, proto_ver: ProtoVer::Json, operation, seq_id: 1, data: body }
    }

    /// The heartbeat packet.
    pub fn new_heartbeat() -> (r: Self)
        ensures
            r@ == spec_heartbeat(),
    {
        let r = WsPacket {
            pkt_len: 16,
            hdr_len: 16,
            proto_ver: ProtoVer::Json,
            operation: Operation::HeartBeat,
            seq_id: 1,
            data: Vec::new(),
        };
        proof {
            assert(r@.data =~= spec_heartbeat().data);
        }
        r
    }

    /// The body of a JSON packet; calling this on a packet of any other
    /// protocol version is the callers' mistake and is answered with
    /// `DecodeMismatch`.
    pub fn decode_body(&self) -> (r: Result<Vec<u8>, Error>)
        ensures
            r is Ok <==> spec_decode_body(self@) is Some,
            r matches Ok(b) ==> Some(b@) == spec_decode_body(self@),
            r matches Err(e) ==> e == Error::DecodeMismatch,
    {
        if self.proto_ver == ProtoVer::Json {
            Ok(clone_bytes(&self.data))
        } else {
            Err(Error::DecodeMismatch)
        }
    }

    /// The popularity a heartbeat reply carries, when this is one: the body
    /// of exactly four bytes, read as a big-endian signed 32-bit integer.
    pub fn popularity(&self) -> (r: Option<i32>)
        ensures
            r is Some <==> (self@.operation == Operation::HeartBeatReply && self@.data.len()
                == 4),
            r matches Some(v) ==> v as int == spec_be_i32(self@.data, 0),
    {
        if self.operation == Operation::HeartBeatReply && self.data.len() == 4 {
            let u: u32 = read_be32(self.data.as_slice(), 0);
            if u >= 0x8000_0000 {
                let v: i64 = (u as i64) - 0x1_0000_0000;
                Some(v as i32)
            } else {
                Some(u as i32)
            }
        } else {
            None
        }
    }
}

/// The big-endian signed 32-bit value at position `i`.
pub open spec fn spec_be_i32(b: Seq<u8>, i: int) -> int {
    if be32_at(b, i) >= 0x8000_0000 {
        be32_at(b, i) - 0x1_0000_0000
    } else {
        be32_at(b, i) as int
    }
}

/// The body of the entering packet, the first packet sent on a fresh
/// session. Its JSON field names are wire contract; the one named `type`
/// there is `kind` here, `type` being reserved.
#[derive(Debug, PartialEq, Eq)]
pub struct EnteringBody {
    pub uid: u32,
    pub platform: String,
    pub proto_ver: u8,
    pub room_id: u64,
    pub kind: u8,
    pub key: String,
}

impl Default for EnteringBody {
    /// The defaults: platform `web`, protocol version 2, type 2, and an
    /// empty room id and key.
    fn default() -> (r: Self)
        ensures
            r.uid == 0,
            r.platform@ == "web"@,
            r.proto_ver == 2,
            r.room_id == 0,
            r.kind == 2,
            r.key@ == ""@,
    {
        EnteringBody {
            uid: 0,
            platform: "web".to_owned(),
            proto_ver: 2,
            room_id: 0,
            kind: 2,
            key: "".to_owned(),
        }
    }
}

impl EnteringBody {
    /// An entering body for the given room, authenticated by the given key;
    /// the other fields take their defaults.
    pub fn new(room_id: u64, key: String) -> (r: Self)
        ensures
            r.uid == 0,
            r.platform@ == "web"@,
            r.proto_ver == 2,
            r.room_id == room_id,
            r.kind == 2,
            r.key == key,
    {
        EnteringBody {
            uid: 0,
            platform: "web".to_owned(),
            proto_ver: 2,
            room_id,
            kind: 2,
            key,
        }
    }

    /// Render the body as its JSON wire form.
    pub fn to_json(&self) -> (r: Vec<u8>)
        ensures
            r@ == spec_entering_json(
                self.uid as nat,
                self.platform@,
                self.proto_ver as nat,
                self.room_id as nat,
                self.kind as nat,
                self.key@,
            ),
    {
        let mut out: Vec<u8> = Vec::new();
        push_lit_uid(&mut out);
        push_dec_u64(&mut out, self.uid as u64);
        push_lit_platform(&mut out);
        push_json_escaped(&mut out, self.platform.as_str().as_bytes());
        push_lit_protover(&mut out);
        push_dec_u64(&mut out, self.proto_ver as u64);
        push_lit_roomid(&mut out);
        push_dec_u64(&mut out, self.room_id);
        push_lit_type(&mut out);
        push_dec_u64(&mut out, self.kind as u64);
        push_lit_key(&mut out);
        push_json_escaped(&mut out, self.key.as_str().as_bytes());
        push_lit_close(&mut out);
        out
    }
}

/// The entering packet for a room and key: the JSON body under the entering
/// operation, or nothing in the outlandish case that the body outgrows the
/// 32-bit length field.
pub fn entering_packet(room_id: u64, key: String) -> (r: Option<WsPacket>)
    ensures
        ({
            let body = spec_entering_json(0, "web"@, 2, room_id as nat, 2, key@);
            &&& (r is Some <==> body.len() + 16 <= u32::MAX)
            &&& (r matches Some(p) ==> p@ == spec_new_json(body, Operation::Entering))
        }),
{
    let body = EnteringBody::new(room_id, key).to_json();
    if body.len() <= (u32::MAX - 16) as usize {
        Some(WsPacket::new_json(body, Operation::Entering))
    } else {
        None
    }
}

} // verus!

//! The compute half of a live session's two tasks.
//!
//! The reader task hands each inbound frame to [`handle_frame`]; the
//! heartbeat writer beats every thirty seconds, each deadline measured from
//! the checkpoint taken at the start of the previous beat so that a slow
//! send does not skew the cadence. The I/O around both lives outside the
//! library.
use vstd::prelude::*;

use crate::error::Error;
use crate::live::ws::{
    be32_at, spec_can_decode, spec_decoded, spec_unwrap, unwrap_container, views_of, ProtoVer,
    WsPacket,
};

verus! {

/// The plaintext a zlib stream inflates to, when it inflates at all.
pub uninterp spec fn inflate_of(b: Seq<u8>) -> Option<Seq<u8>>;

/// Relies on flate2's `ZlibDecoder` writing into a `Vec<u8>`: `write_all`
/// feeds the compressed bytes through the decompressor and `finish` flushes
/// the collected plaintext out; the outcome is a function of the input bytes
/// alone, and a corrupt stream fails.
#[verifier::external_body]
fn inflate(data: &[u8]) -> (r: Option<Vec<u8>>)
    ensures
        r matches Some(v) ==> inflate_of(data@) == Some(v@),
        r is None ==> inflate_of(data@) is None,
{
    let mut z = flate2::write::ZlibDecoder::new(Vec::new());
    match std::io::Write::write_all(&mut z, data) {
        Ok(()) => z.finish().ok(),
        Err(_) => None,
    }
}

/// What one inbound frame yielded.
#[derive(Debug)]
pub struct FrameResult {
    /// The packets to forward, in order: the inner packets of a container,
    /// or the outer packet itself.
    pub packets: Vec<WsPacket>,
    /// Whether the outer packet left trailing bytes behind it. They are
    /// discarded; the caller may warn.
    pub trailing: bool,
}

/// Handle one inbound binary message: decode one outer packet (trailing
/// bytes are noted and discarded), and when it is a zlib container, inflate
/// it and decode its inner packets, in order. A malformed outer packet, a
/// corrupt zlib stream, or a malformed inner packet rejects the frame.
pub fn handle_frame(msg: &[u8]) -> (r: Result<FrameResult, Error>)
    ensures
        r is Ok <==> (spec_can_decode(msg@, 0) && (spec_decoded(msg@, 0).proto_ver
            == ProtoVer::ZlibBuf ==> (inflate_of(spec_decoded(msg@, 0).data) matches Some(pl)
            && spec_unwrap(pl) is Some))),
        r matches Ok(fr) ==> ({
            let p = spec_decoded(msg@, 0);
            &&& fr.trailing == (be32_at(msg@, 0) < msg@.len())
            &&& (p.proto_ver != ProtoVer::ZlibBuf ==> views_of(fr.packets@) == seq![p])
            &&& (p.proto_ver == ProtoVer::ZlibBuf ==> Some(views_of(fr.packets@)) == spec_unwrap(
                inflate_of(p.data)->0,
            ))
        }),
        r matches Err(e) ==> e == Error::MalformedFrame,
{
    let (pkt, no) = match WsPacket::decode(msg, 0) {
        Ok(d) => d,
        Err(e) => {
            return Err(e);
        },
    };
    let trailing = no < msg.len();
    if pkt.proto_ver == ProtoVer::ZlibBuf {
        match inflate(pkt.data.as_slice()) {
            None => Err(Error::MalformedFrame),
            Some(plain) => match unwrap_container(plain.as_slice()) {
                Ok(packets) => Ok(FrameResult { packets, trailing }),
                Err(e) => Err(e),
            },
        }
    } else {
        let mut packets: Vec<WsPacket> = Vec::new();
        packets.push(pkt);
        proof {
            assert(views_of(packets@) =~= seq![spec_decoded(msg@, 0)]);
        }
        Ok(FrameResult { packets, trailing })
    }
}

/// Milliseconds from one heartbeat to the next.
pub const HEARTBEAT_INTERVAL_MS: u64 = 30000;

/// The deadline of the `n`-th heartbeat of a session that starts beating at
/// `start` (milliseconds): one beat every thirty seconds.
pub open spec fn spec_heartbeat_deadline(start: nat, n: nat) -> nat {
    start + n * 30000
}

/// The next heartbeat deadline: thirty seconds after the checkpoint taken at
/// the start of the previous beat — not after its end, so a send that drags
/// does not push later beats back.
pub fn next_heartbeat_deadline(checkpoint_ms: u64) -> (d: u64)
    requires
        checkpoint_ms + HEARTBEAT_INTERVAL_MS <= u64::MAX,
    ensures
        d == checkpoint_ms + HEARTBEAT_INTERVAL_MS,
{
    checkpoint_ms + HEARTBEAT_INTERVAL_MS
}

/// Each heartbeat deadline is the previous one moved thirty seconds on: the
/// cadence never depends on when a send finished.
pub proof fn lemma_heartbeat_cadence(start: nat, n: nat)
    ensures
        spec_heartbeat_deadline(start, n + 1) == spec_heartbeat_deadline(start, n) + 30000,
        spec_heartbeat_deadline(start, 0) == start,
{
    assert((n + 1) * 30000 == n * 30000 + 30000) by (nonlinear_arith);
}

} // verus!

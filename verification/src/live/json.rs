//! Rendering of the entering body as JSON bytes.
//!
//! The field names and their order are wire contract (`roomid` and
//! `protover` in particular are spelled exactly so), which is why the body is
//! rendered here, byte by byte, rather than left to a serializer.
use vstd::prelude::*;

verus! {

use vstd::utf8::encode_utf8;

/// The ASCII digits of `n`, in base ten.
pub open spec fn dec_digits(n: nat) -> Seq<u8>
    decreases n,
{
    if n < 10 {
        seq![(0x30 + n) as u8]
    } else {
        dec_digits(n / 10) + seq![(0x30 + n % 10) as u8]
    }
}

/// The lower-case ASCII hex digit for `n < 16`.
pub open spec fn hex_digit(n: nat) -> u8 {
    if n < 10 {
        (0x30 + n) as u8
    } else {
        (0x57 + n) as u8
    }
}

/// How one byte of a JSON string is written: quote and backslash get a
/// backslash escape, the five short control escapes are used where JSON has
/// them, any other control byte is written as `\u00` and two hex digits, and
/// everything else stands as itself.
pub open spec fn escaped_byte(b: u8) -> Seq<u8> {
    if b == 0x22 {
        seq![0x5Cu8, 0x22]
    } else if b == 0x5C {
        seq![0x5Cu8, 0x5C]
    } else if b == 0x08 {
        seq![0x5Cu8, 0x62]
    } else if b == 0x09 {
        seq![0x5Cu8, 0x74]
    } else if b == 0x0A {
        seq![0x5Cu8, 0x6E]
    } else if b == 0x0C {
        seq![0x5Cu8, 0x66]
    } else if b == 0x0D {
        seq![0x5Cu8, 0x72]
    } else if b < 0x20 {
        seq![0x5Cu8, 0x75, 0x30, 0x30, hex_digit((b / 16) as nat), hex_digit((b % 16) as nat)]
    } else {
        seq![b]
    }
}

/// A byte sequence written as the inside of a JSON string.
pub open spec fn json_escaped(s: Seq<u8>) -> Seq<u8>
    decreases s.len(),
{
    if s.len() == 0 {
        Seq::empty()
    } else {
        escaped_byte(s[0]) + json_escaped(s.drop_first())
    }
}

/// Escaping a sequence one byte longer appends that byte's escape.
pub proof fn lemma_json_escaped_snoc(t: Seq<u8>, b: u8)
    ensures
        json_escaped(t.push(b)) == json_escaped(t) + escaped_byte(b),
    decreases t.len(),
{
    if t.len() == 0 {
        assert(t.push(b) =~= seq![b]);
        assert(seq![b].drop_first() =~= Seq::<u8>::empty());
        assert(json_escaped(Seq::<u8>::empty()) =~= Seq::<u8>::empty());
        assert(json_escaped(seq![b]) =~= escaped_byte(b));
        assert(json_escaped(t) + escaped_byte(b) =~= escaped_byte(b));
    } else {
        assert(t.push(b).drop_first() =~= t.drop_first().push(b));
        lemma_json_escaped_snoc(t.drop_first(), b);
        assert(escaped_byte(t[0]) + (json_escaped(t.drop_first()) + escaped_byte(b)) =~= (
        escaped_byte(t[0]) + json_escaped(t.drop_first())) + escaped_byte(b));
    }
}

/// Append the decimal digits of `n`.
pub fn push_dec_u64(out: &mut Vec<u8>, n: u64)
    ensures
        final(out)@ == old(out)@ + dec_digits(n as nat),
{
    let mut rev: Vec<u8> = Vec::new();
    let mut m: u64 = n;
    proof {
        assert(rev@.reverse() =~= Seq::<u8>::empty());
        assert(dec_digits(n as nat) =~= dec_digits(m as nat) + rev@.reverse());
    }
    while m >= 10
        invariant
            dec_digits(n as nat) == dec_digits(m as nat) + rev@.reverse(),
        decreases m,
    {
        let ghost old_rev = rev@;
        let ghost old_m = m as nat;
        rev.push((0x30 + (m % 10)) as u8);
        m = m / 10;
        proof {
            assert(rev@.reverse() =~= seq![(0x30 + (old_m % 10)) as u8] + old_rev.reverse());
            assert(dec_digits(old_m) == dec_digits(m as nat) + seq![(0x30 + (old_m % 10)) as u8]);
            assert(dec_digits(m as nat) + seq![(0x30 + (old_m % 10)) as u8] + old_rev.reverse()
                =~= dec_digits(m as nat) + (seq![(0x30 + (old_m % 10)) as u8]
                + old_rev.reverse()));
        }
    }
    out.push((0x30 + (m % 10)) as u8);
    proof {
        assert(m % 10 == m as nat);
        assert(dec_digits(n as nat) == seq![(0x30 + m as nat) as u8] + rev@.reverse());
    }
    let ghost base = old(out)@;
    let mut i: usize = rev.len();
    proof {
        assert(out@ =~= base + dec_digits(n as nat).subrange(
            0,
            dec_digits(n as nat).len() - i,
        ));
    }
    while i > 0
        invariant
            i <= rev@.len(),
            dec_digits(n as nat) == seq![(0x30 + m as nat) as u8] + rev@.reverse(),
            out@ == base + dec_digits(n as nat).subrange(0, dec_digits(n as nat).len() - i),
        decreases i,
    {
        i = i - 1;
        out.push(rev[i]);
        proof {
            assert(rev@.reverse()[rev@.len() - 1 - i as int] == rev@[i as int]);
            assert(out@ =~= base + dec_digits(n as nat).subrange(
                0,
                dec_digits(n as nat).len() - i,
            ));
        }
    }
    proof {
        assert(dec_digits(n as nat).subrange(0, dec_digits(n as nat).len() as int) =~= dec_digits(
            n as nat,
        ));
    }
}

/// Append the bytes of `s`, written as the inside of a JSON string.
pub fn push_json_escaped(out: &mut Vec<u8>, s: &[u8])
    ensures
        final(out)@ == old(out)@ + json_escaped(s@),
{
    let mut i: usize = 0;
    proof {
        assert(s@.subrange(0, 0) =~= Seq::<u8>::empty());
        assert(out@ =~= old(out)@ + json_escaped(s@.subrange(0, 0)));
    }
    while i < s.len()
        invariant
            i <= s@.len(),
            out@ == old(out)@ + json_escaped(s@.subrange(0, i as int)),
        decreases s@.len() - i,
    {
        let b = s[i];
        if b == 0x22 {
            out.push(0x5C);
            out.push(0x22);
        } else if b == 0x5C {
            out.push(0x5C);
            out.push(0x5C);
        } else if b == 0x08 {
            out.push(0x5C);
            out.push(0x62);
        } else if b == 0x09 {
            out.push(0x5C);
            out.push(0x74);
        } else if b == 0x0A {
            out.push(0x5C);
            out.push(0x6E);
        } else if b == 0x0C {
            out.push(0x5C);
            out.push(0x66);
        } else if b == 0x0D {
            out.push(0x5C);
            out.push(0x72);
        } else if b < 0x20 {
            out.push(0x5C);
            out.push(0x75);
            out.push(0x30);
            out.push(0x30);
            if b / 16 < 10 {
                out.push(0x30 + b / 16);
            } else {
                out.push(0x57 + b / 16);
            }
            if b % 16 < 10 {
                out.push(0x30 + b % 16);
            } else {
                out.push(0x57 + b % 16);
            }
        } else {
            out.push(b);
        }
        proof {
            lemma_json_escaped_snoc(s@.subrange(0, i as int), s@[i as int]);
            assert(s@.subrange(0, i + 1) =~= s@.subrange(0, i as int).push(s@[i as int]));
            assert(out@ =~= old(out)@ + json_escaped(s@.subrange(0, i + 1)));
        }
        i = i + 1;
    }
    proof {
        assert(s@.subrange(0, s@.len() as int) =~= s@);
    }
}

/// The bytes before the `uid` value: `{"uid":`.
pub open spec fn lit_uid() -> Seq<u8> {
    seq![0x7Bu8, 0x22, 0x75, 0x69, 0x64, 0x22, 0x3A]
}

/// The bytes between the `uid` value and the `platform` value:
/// `,"platform":"`.
pub open spec fn lit_platform() -> Seq<u8> {
    seq![0x2Cu8, 0x22, 0x70, 0x6C, 0x61, 0x74, 0x66, 0x6F, 0x72, 0x6D, 0x22, 0x3A, 0x22]
}

/// The bytes between the `platform` value and the `protover` value:
/// `","protover":`.
pub open spec fn lit_protover() -> Seq<u8> {
    seq![0x22u8, 0x2C, 0x22, 0x70, 0x72, 0x6F, 0x74, 0x6F, 0x76, 0x65, 0x72, 0x22, 0x3A]
}

/// The bytes between the `protover` value and the `roomid` value:
/// `,"roomid":`.
pub open spec fn lit_roomid() -> Seq<u8> {
    seq![0x2Cu8, 0x22, 0x72, 0x6F, 0x6F, 0x6D, 0x69, 0x64, 0x22, 0x3A]
}

/// The bytes between the `roomid` value and the `type` value: `,"type":`.
pub open spec fn lit_type() -> Seq<u8> {
    seq![0x2Cu8, 0x22, 0x74, 0x79, 0x70, 0x65, 0x22, 0x3A]
}

/// The bytes between the `type` value and the `key` value: `,"key":"`.
pub open spec fn lit_key() -> Seq<u8> {
    seq![0x2Cu8, 0x22, 0x6B, 0x65, 0x79, 0x22, 0x3A, 0x22]
}

/// The closing bytes: `"}`.
pub open spec fn lit_close() -> Seq<u8> {
    seq![0x22u8, 0x7D]
}

/// Append `{"uid":`.
pub fn push_lit_uid(out: &mut Vec<u8>)
    ensures
        final(out)@ == old(out)@ + lit_uid(),
{
    out.push(0x7B);
    out.push(0x22);
    out.push(0x75);
    out.push(0x69);
    out.push(0x64);
    out.push(0x22);
    out.push(0x3A);
    proof {
        assert(out@ =~= old(out)@ + lit_uid());
    }
}

/// Append `,"platform":"`.
pub fn push_lit_platform(out: &mut Vec<u8>)
    ensures
        final(out)@ == old(out)@ + lit_platform(),
{
    out.push(0x2C);
    out.push(0x22);
    out.push(0x70);
    out.push(0x6C);
    out.push(0x61);
    out.push(0x74);
    out.push(0x66);
    out.push(0x6F);
    out.push(0x72);
    out.push(0x6D);
    out.push(0x22);
    out.push(0x3A);
    out.push(0x22);
    proof {
        assert(out@ =~= old(out)@ + lit_platform());
    }
}

/// Append `","protover":`.
pub fn push_lit_protover(out: &mut Vec<u8>)
    ensures
        final(out)@ == old(out)@ + lit_protover(),
{
    out.push(0x22);
    out.push(0x2C);
    out.push(0x22);
    out.push(0x70);
    out.push(0x72);
    out.push(0x6F);
    out.push(0x74);
    out.push(0x6F);
    out.push(0x76);
    out.push(0x65);
    out.push(0x72);
    out.push(0x22);
    out.push(0x3A);
    proof {
        assert(out@ =~= old(out)@ + lit_protover());
    }
}

/// Append `,"roomid":`.
pub fn push_lit_roomid(out: &mut Vec<u8>)
    ensures
        final(out)@ == old(out)@ + lit_roomid(),
{
    out.push(0x2C);
    out.push(0x22);
    out.push(0x72);
    out.push(0x6F);
    out.push(0x6F);
    out.push(0x6D);
    out.push(0x69);
    out.push(0x64);
    out.push(0x22);
    out.push(0x3A);
    proof {
        assert(out@ =~= old(out)@ + lit_roomid());
    }
}

/// Append `,"type":`.
pub fn push_lit_type(out: &mut Vec<u8>)
    ensures
        final(out)@ == old(out)@ + lit_type(),
{
    out.push(0x2C);
    out.push(0x22);
    out.push(0x74);
    out.push(0x79);
    out.push(0x70);
    out.push(0x65);
    out.push(0x22);
    out.push(0x3A);
    proof {
        assert(out@ =~= old(out)@ + lit_type());
    }
}

/// Append `,"key":"`.
pub fn push_lit_key(out: &mut Vec<u8>)
    ensures
        final(out)@ == old(out)@ + lit_key(),
{
    out.push(0x2C);
    out.push(0x22);
    out.push(0x6B);
    out.push(0x65);
    out.push(0x79);
    out.push(0x22);
    out.push(0x3A);
    out.push(0x22);
    proof {
        assert(out@ =~= old(out)@ + lit_key());
    }
}

/// Append `"}`.
pub fn push_lit_close(out: &mut Vec<u8>)
    ensures
        final(out)@ == old(out)@ + lit_close(),
{
    out.push(0x22);
    out.push(0x7D);
    proof {
        assert(out@ =~= old(out)@ + lit_close());
    }
}

/// The JSON wire form of an entering body, over its plain values: the UTF-8
/// bytes of the two strings stand inside JSON string quotes, escaped; the
/// numbers stand in decimal.
pub open spec fn spec_entering_json(
    uid: nat,
    platform: Seq<char>,
    proto_ver: nat,
    room_id: nat,
    kind: nat,
    key: Seq<char>,
) -> Seq<u8> {
    lit_uid() + dec_digits(uid) + lit_platform() + json_escaped(encode_utf8(platform))
        + lit_protover() + dec_digits(proto_ver) + lit_roomid() + dec_digits(room_id) + lit_type()
        + dec_digits(kind) + lit_key() + json_escaped(encode_utf8(key)) + lit_close()
}

} // verus!

use crate::error::ConnectionError;
use crate::frame::{Flags, Header, RawFrame, Type};
use vstd::prelude::*;

verus! {

/// Length of an encoded header.
pub const HEADER_LEN: usize = 12;

/// Protocol version written in every header.
pub const VERSION: u8 = 0;

pub open spec fn type_byte(t: Type) -> u8 {
    match t {
        Type::Data => 0,
        Type::WindowUpdate => 1,
        Type::Ping => 2,
        Type::GoAway => 3,
    }
}

pub open spec fn type_of(b: u8) -> Type {
    if b == 0 {
        Type::Data
    } else if b == 1 {
        Type::WindowUpdate
    } else if b == 2 {
        Type::Ping
    } else {
        Type::GoAway
    }
}

pub open spec fn bit(b: bool) -> int {
    if b {
        1
    } else {
        0
    }
}

/// The flag bits: SYN is 1, ACK 2, FIN 4 and RST 8.
pub open spec fn flag_bits(f: Flags) -> u16 {
    (bit(f.syn) + 2 * bit(f.ack) + 4 * bit(f.fin) + 8 * bit(f.rst)) as u16
}

/// The flags that `bits` sets; other bits are ignored.
pub open spec fn flags_of(bits: u16) -> Flags {
    Flags {
        syn: bits % 2 == 1,
        ack: (bits / 2) % 2 == 1,
        fin: (bits / 4) % 2 == 1,
        rst: (bits / 8) % 2 == 1,
    }
}

/// Big-endian bytes of a 16-bit value.
pub open spec fn be16(x: u16) -> Seq<u8> {
    seq![(x / 256) as u8, (x % 256) as u8]
}

/// Big-endian bytes of a 32-bit value.
pub open spec fn be32(x: u32) -> Seq<u8> {
    seq![(x / 0x1000000) as u8, ((x / 0x10000) % 256) as u8, ((x / 256) % 256) as u8, (x % 256) as u8]
}

pub open spec fn u16_of(b: Seq<u8>) -> u16 {
    (b[0] * 256 + b[1]) as u16
}

pub open spec fn u32_of(b: Seq<u8>) -> u32 {
    (b[0] * 0x1000000 + b[1] * 0x10000 + b[2] * 256 + b[3]) as u32
}

/// The encoding of a header: version, type, flags, stream ID, then the
/// length, credit, nonce or error code.
pub open spec fn header_bytes(h: Header) -> Seq<u8> {
    seq![VERSION, type_byte(h.typ)] + be16(flag_bits(h.flags)) + be32(h.stream_id) + be32(h.aux)
}

/// The header that the first twelve bytes of `b` encode, if they encode one.
pub open spec fn parse_header(b: Seq<u8>) -> Option<Header> {
    if b.len() < 12 || b[0] != VERSION || b[1] > 3 {
        None
    } else {
        Some(
            Header {
                typ: type_of(b[1]),
                flags: flags_of(u16_of(b.subrange(2, 4))),
                stream_id: u32_of(b.subrange(4, 8)),
                aux: u32_of(b.subrange(8, 12)),
            },
        )
    }
}

/// Number of body bytes that follow header `h`.
pub open spec fn body_len(h: Header) -> nat {
    if h.typ == Type::Data {
        h.aux as nat
    } else {
        0
    }
}

/// A frame whose body agrees with its header.
pub open spec fn well_formed(f: RawFrame) -> bool {
    f.body@.len() == body_len(f.header)
}

pub open spec fn frame_bytes(f: RawFrame) -> Seq<u8> {
    header_bytes(f.header) + f.body@
}

fn push_be32(out: &mut Vec<u8>, x: u32)
    ensures
        final(out)@ == old(out)@ + be32(x),
{
    out.push((x / 0x1000000) as u8);
    out.push(((x / 0x10000) % 256) as u8);
    out.push(((x / 256) % 256) as u8);
    out.push((x % 256) as u8);
    proof {
        assert(final(out)@ =~= old(out)@ + be32(x));
    }
}

fn read_be32(b: &[u8], at: usize) -> (r: u32)
    requires
        at + 4 <= b@.len(),
    ensures
        r == u32_of(b@.subrange(at as int, at + 4)),
{
    let r = (b[at] as u32) * 0x1000000 + (b[at + 1] as u32) * 0x10000 + (b[at + 2] as u32) * 256
        + b[at + 3] as u32;
    r
}

/// Encode a frame: its header, then its body.
pub fn encode_frame(f: &RawFrame) -> (r: Vec<u8>)
    ensures
        r@ == frame_bytes(*f),
{
    let mut out: Vec<u8> = Vec::new();
    out.push(VERSION);
    let t: u8 = match f.header.typ {
        Type::Data => 0,
        Type::WindowUpdate => 1,
        Type::Ping => 2,
        Type::GoAway => 3,
    };
    out.push(t);
    let fl = f.header.flags;
    let bits: u16 = (if fl.syn { 1u16 } else { 0 }) + (if fl.ack { 2u16 } else { 0 }) + (if fl.fin {
        4u16
    } else {
        0
    }) + (if fl.rst { 8u16 } else { 0 });
    out.push((bits / 256) as u8);
    out.push((bits % 256) as u8);
    push_be32(&mut out, f.header.stream_id);
    push_be32(&mut out, f.header.aux);
    let mut i: usize = 0;
    while i < f.body.len()
        invariant
            i <= f.body@.len(),
            out@ == header_bytes(f.header) + f.body@.subrange(0, i as int),
        decreases f.body@.len() - i,
    {
        out.push(f.body[i]);
        i = i + 1;
        proof {
            assert(out@ =~= header_bytes(f.header) + f.body@.subrange(0, i as int));
        }
    }
    proof {
        assert(f.body@.subrange(0, i as int) =~= f.body@);
    }
    out
}

/// Decode one frame from the start of `buf`: the frame and the number of
/// bytes it took, or `None` while `buf` holds only part of it.
pub fn decode_frame(buf: &[u8]) -> (r: Result<Option<(RawFrame, usize)>, ConnectionError>)
    ensures
        buf@.len() < 12 ==> r == Ok::<Option<(RawFrame, usize)>, ConnectionError>(None),
        buf@.len() >= 12 ==> match parse_header(buf@) {
            None => r == Err::<Option<(RawFrame, usize)>, ConnectionError>(ConnectionError::Decode),
            Some(h) => if buf@.len() < 12 + body_len(h) {
                r == Ok::<Option<(RawFrame, usize)>, ConnectionError>(None)
            } else {
                &&& r is Ok
                &&& r->Ok_0 is Some
                &&& r->Ok_0->Some_0.0.header == h
                &&& r->Ok_0->Some_0.0.body@ == buf@.subrange(12, 12 + body_len(h) as int)
                &&& r->Ok_0->Some_0.1 == 12 + body_len(h)
            },
        },
{
    if buf.len() < HEADER_LEN {
        return Ok(None);
    }
    if buf[0] != VERSION || buf[1] > 3 {
        return Err(ConnectionError::Decode);
    }
    let typ = if buf[1] == 0 {
        Type::Data
    } else if buf[1] == 1 {
        Type::WindowUpdate
    } else if buf[1] == 2 {
        Type::Ping
    } else {
        Type::GoAway
    };
    let bits: u16 = (buf[2] as u16) * 256 + buf[3] as u16;
    let flags = Flags {
        syn: bits % 2 == 1,
        ack: (bits / 2) % 2 == 1,
        fin: (bits / 4) % 2 == 1,
        rst: (bits / 8) % 2 == 1,
    };
    let stream_id = read_be32(buf, 4);
    let aux = read_be32(buf, 8);
    let header = Header { typ, flags, stream_id, aux };
    proof {
        assert(buf@.subrange(2, 4)[0] == buf@[2] && buf@.subrange(2, 4)[1] == buf@[3]);
        assert(parse_header(buf@) == Some(header));
    }
    let len: usize = match typ {
        Type::Data => aux as usize,
        _ => 0,
    };
    if buf.len() - HEADER_LEN < len {
        return Ok(None);
    }
    let n = buf.len();
    let mut body: Vec<u8> = Vec::new();
    let mut i: usize = 0;
    while i < len
        invariant
            i <= len,
            n == buf@.len(),
            HEADER_LEN + len <= buf@.len(),
            body@ == buf@.subrange(12, 12 + i),
        decreases len - i,
    {
        body.push(buf[HEADER_LEN + i]);
        i = i + 1;
        proof {
            assert(body@ =~= buf@.subrange(12, 12 + i));
        }
    }
    Ok(Some((RawFrame { header, body }, HEADER_LEN + len)))
}

proof fn lemma_be32(x: u32)
    ensures
        u32_of(be32(x)) == x,
{
    assert(x == (x / 0x1000000) * 0x1000000 + ((x / 0x10000) % 256) * 0x10000 + ((x / 256) % 256) * 256 + x % 256) by (nonlinear_arith);
}

proof fn lemma_flags(f: Flags)
    ensures
        flags_of(flag_bits(f)) == f,
{
}

/// Decoding the encoding of a well-formed frame, followed by any bytes,
/// gives back the frame and the length of its encoding.
pub proof fn lemma_codec_round_trip(f: RawFrame, rest: Seq<u8>)
    requires
        well_formed(f),
    ensures
        parse_header(frame_bytes(f) + rest) == Some(f.header),
        (frame_bytes(f) + rest).subrange(12, 12 + body_len(f.header) as int) == f.body@,
{
    let b = frame_bytes(f) + rest;
    let h = f.header;
    lemma_be32(h.stream_id);
    lemma_be32(h.aux);
    lemma_flags(h.flags);
    assert(b.subrange(2, 4) =~= be16(flag_bits(h.flags)));
    assert(b.subrange(4, 8) =~= be32(h.stream_id));
    assert(b.subrange(8, 12) =~= be32(h.aux));
    let bits = flag_bits(h.flags);
    assert(u16_of(be16(bits)) == bits);
    assert(b.subrange(12, 12 + body_len(h) as int) =~= f.body@);
}

} // verus!

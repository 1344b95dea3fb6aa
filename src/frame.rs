use vstd::prelude::*;

verus! {

/// Error code sent in a go-away frame after a protocol violation by the peer.
pub const ECODE_PROTO: u32 = 1;

/// Client-initiated streams carry odd IDs.
pub open spec fn is_client_id(id: u32) -> bool {
    id % 2 == 1
}

/// Server-initiated streams carry even, non-zero IDs.
pub open spec fn is_server_id(id: u32) -> bool {
    id != 0 && id % 2 == 0
}

/// The kind of a frame, encoded in its header.
#[derive(Clone, Copy, Debug, PartialEq, Eq, Structural)]
pub enum Type {
    Data,
    WindowUpdate,
    Ping,
    GoAway,
}

/// The flag bits of a header.
#[derive(Clone, Copy, Debug, PartialEq, Eq, Structural)]
pub struct Flags {
    pub syn: bool,
    pub ack: bool,
    pub fin: bool,
    pub rst: bool,
}

/// A header with no flag set.
pub open spec fn no_flags() -> Flags {
    Flags { syn: false, ack: false, fin: false, rst: false }
}

impl Flags {
    pub fn empty() -> (r: Flags)
        ensures
            r == no_flags(),
    {
        Flags { syn: false, ack: false, fin: false, rst: false }
    }
}

/// A frame header. `aux` is the body length of a data frame, the credit of a
/// window update, the nonce of a ping and the error code of a go-away.
#[derive(Clone, Copy, Debug, PartialEq, Eq, Structural)]
pub struct Header {
    pub typ: Type,
    pub flags: Flags,
    pub stream_id: u32,
    pub aux: u32,
}

/// An untyped frame, as it travels on the wire.
#[derive(Clone, Debug, PartialEq, Eq)]
pub struct RawFrame {
    pub header: Header,
    pub body: Vec<u8>,
}

/// `f` has the header `(typ, flags, id, aux)` and the body `body`.
pub open spec fn frame_is(f: RawFrame, typ: Type, flags: Flags, id: u32, aux: u32, body: Seq<u8>) -> bool {
    &&& f.header == (Header { typ, flags, stream_id: id, aux })
    &&& f.body@ == body
}

impl RawFrame {
    /// A data frame carrying `body`; its length field is the body's length.
    pub fn data(id: u32, body: Vec<u8>) -> (r: RawFrame)
        requires
            body@.len() <= u32::MAX,
        ensures
            frame_is(r, Type::Data, no_flags(), id, body@.len() as u32, body@),
            r.body == body,
    {
        let len = body.len() as u32;
        RawFrame { header: Header { typ: Type::Data, flags: Flags::empty(), stream_id: id, aux: len }, body }
    }

    /// A window update granting `credit` further bytes on stream `id`.
    pub fn window_update(id: u32, credit: u32) -> (r: RawFrame)
        ensures
            frame_is(r, Type::WindowUpdate, no_flags(), id, credit, seq![]),
    {
        RawFrame {
            header: Header { typ: Type::WindowUpdate, flags: Flags::empty(), stream_id: id, aux: credit },
            body: Vec::new(),
        }
    }

    /// A ping on the session carrying `nonce`.
    pub fn ping(nonce: u32) -> (r: RawFrame)
        ensures
            frame_is(r, Type::Ping, no_flags(), 0, nonce, seq![]),
    {
        RawFrame { header: Header { typ: Type::Ping, flags: Flags::empty(), stream_id: 0, aux: nonce }, body: Vec::new() }
    }

    /// A go-away on the session carrying the error code `code`.
    pub fn go_away(code: u32) -> (r: RawFrame)
        ensures
            frame_is(r, Type::GoAway, no_flags(), 0, code, seq![]),
    {
        RawFrame { header: Header { typ: Type::GoAway, flags: Flags::empty(), stream_id: 0, aux: code }, body: Vec::new() }
    }
}

} // verus!

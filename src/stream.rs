use vstd::prelude::*;

verus! {

/// What a stream hands to the connection, and what the connection hands to a
/// stream's inbox.
#[derive(Clone, Debug, PartialEq, Eq)]
pub enum Item {
    Data(Vec<u8>),
    WindowUpdate(u32),
    Finish,
    Reset,
}

/// The connection's record of one open stream.
#[derive(Clone, Copy, Debug, PartialEq, Eq, Structural)]
pub struct StreamHandle {
    /// Bytes the stream is still prepared to receive.
    pub recv_win: u32,
    /// False once the stream has gone away and takes no more items.
    pub receiver_open: bool,
    /// Whether the next outbound frame on the stream must acknowledge it.
    pub ack: bool,
}

impl StreamHandle {
    pub fn new(recv_win: u32, ack: bool) -> (r: StreamHandle)
        ensures
            r == (StreamHandle { recv_win, receiver_open: true, ack }),
    {
        StreamHandle { recv_win, receiver_open: true, ack }
    }
}

} // verus!

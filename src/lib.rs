use vstd::prelude::*;

pub mod codec;
pub mod connection;
pub mod error;
pub mod frame;
pub mod laws;
pub mod stream;

verus! {

/// Connection settings.
#[derive(Clone, Copy, Debug, PartialEq, Eq, Structural)]
pub struct Config {
    /// Initial receive credit of each stream, and the largest initial body of a
    /// stream opened by the peer.
    pub receive_window: u32,
}

/// Receive window of a default configuration: 256 KiB.
pub const DEFAULT_RECEIVE_WINDOW: u32 = 262144;

impl Config {
    pub fn new(receive_window: u32) -> (r: Config)
        ensures
            r.receive_window == receive_window,
    {
        Config { receive_window }
    }
}

impl Default for Config {
    fn default() -> (r: Config)
        ensures
            r.receive_window == DEFAULT_RECEIVE_WINDOW,
    {
        Config { receive_window: DEFAULT_RECEIVE_WINDOW }
    }
}

} // verus!

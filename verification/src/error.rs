//! The library's error kinds and how they surface.

use vstd::prelude::*;

verus! {

/// Everything that can go wrong between the core and its edges.
#[derive(Debug, Clone)]
pub enum Error {
    /// An I/O failure, with the reporter's text.
    Io(String),
    /// A serial-port failure, with the reporter's text.
    Serial(String),
    /// The printer has no open stream.
    NotConnected,
    /// The worker dropped its stream and is waiting to reconnect.
    Disconnected,
    /// A channel's sender found no receiver.
    ChannelSend,
    /// A channel's receiver found no sender.
    ChannelRecv,
    /// A reply did not arrive within its deadline.
    Timeout,
    /// The firmware reported an error line.
    Firmware(Vec<u8>),
}

impl Error {
    /// A short name for the error's kind.
    pub fn kind_name(&self) -> (r: &'static str)
        ensures
            self is Io ==> r@ == "io"@,
            self is Serial ==> r@ == "serial"@,
            self is NotConnected ==> r@ == "not connected"@,
            self is Disconnected ==> r@ == "disconnected"@,
            self is ChannelSend ==> r@ == "channel send"@,
            self is ChannelRecv ==> r@ == "channel receive"@,
            self is Timeout ==> r@ == "timeout"@,
            self is Firmware ==> r@ == "firmware"@,
    {
        match self {
            Error::Io(_) => "io",
            Error::Serial(_) => "serial",
            Error::NotConnected => "not connected",
            Error::Disconnected => "disconnected",
            Error::ChannelSend => "channel send",
            Error::ChannelRecv => "channel receive",
            Error::Timeout => "timeout",
            Error::Firmware(_) => "firmware",
        }
    }
}

} // verus!

use vstd::prelude::*;

verus! {

/// The event types that are dispatched to a connection's handler. The first
/// event a freshly connected handler can see is `Readable` or `Writable`;
/// completion of an outbound connection is reported through the connect
/// handler, never as an event.
#[derive(PartialEq, Debug)]
pub enum EventType {
    /// The socket has data waiting to be read.
    Readable,
    /// The socket has space available in its buffer for writing.
    Writable,
    /// The remote end of the socket has disconnected; terminal.
    Disconnect,
    /// The notify queue has received a message addressed to this socket.
    Notify(Vec<u8>),
    /// A timer armed for this socket has fired; carries the timer token's
    /// integer.
    Timeout(usize),
}

} // verus!

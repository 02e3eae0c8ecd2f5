//! What arrives on a websocket.

use vstd::prelude::*;

verus! {

/// Something that arrives on a socket.
pub enum Incoming {
    Text(String),
    Binary(Vec<u8>),
    /// The peer closes the connection.
    Close,
    /// A frame of the transport itself.
    Other,
    /// The connection failed, ended or stayed silent for too long.
    Gone,
}

} // verus!

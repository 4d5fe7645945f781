//! The error taxonomy of the protocol client.

use vstd::prelude::*;

verus! {

/// How a client operation can fail.
///
/// - `Connection`: a transport-level failure (the socket could not be
///   opened, read, or written), or a desynchronization that persisted
///   after the single reconnect attempt. Fatal to the connection instance.
/// - `Protocol`: a response line matched none of the recognized shapes;
///   the connection is desynchronized and must be reopened.
/// - `Server`: a well-formed `ACK` reply from the daemon, carrying the
///   daemon's message verbatim. Never triggers a reconnect.
/// - `NotFound`: the daemon legitimately has no data to return (for
///   example, a path with no artwork). An expected, non-exceptional
///   outcome, distinct from `Server`.
#[derive(Debug)]
pub enum MpdError {
    Connection,
    Protocol,
    Server(String),
    NotFound,
}

impl MpdError {
    /// A short description of the error, carrying the daemon's message
    /// verbatim for the `Server` case.
    pub fn describe(&self) -> (r: String)
        ensures
            self matches MpdError::Connection ==> r@ == ("connection failed")@,
            self matches MpdError::Protocol ==> r@ == ("protocol violation")@,
            self matches MpdError::Server(m) ==> r@ == m@,
            self matches MpdError::NotFound ==> r@ == ("not found")@,
    {
        match self {
            MpdError::Connection => String::from_str("connection failed"),
            MpdError::Protocol => String::from_str("protocol violation"),
            MpdError::Server(m) => m.clone(),
            MpdError::NotFound => String::from_str("not found"),
        }
    }
}

} // verus!

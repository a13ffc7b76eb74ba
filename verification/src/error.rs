//! What can end a round, or the admission of a peer.

use vstd::prelude::*;
use vstd::std_specs::convert::FromSpecImpl;

verus! {

/// `std::io::Error`, carried through unread: a failure of a socket.
#[verifier::external_type_specification]
#[verifier::external_body]
pub struct ExIoError(std::io::Error);

/// `serde_json::Error`, carried through unread: a payload that is no state
/// record.
#[verifier::external_type_specification]
#[verifier::external_body]
pub struct ExJsonError(serde_json::Error);

/// A failure of one session. None is retried: each ends the round it occurs
/// in, and with it the server; during admission each ends the admission.
#[derive(Debug)]
pub enum SyncError {
    /// A socket could not be read or written, or was reset.
    Io(std::io::Error),
    /// A received payload could not be decoded into a state record.
    Serde(serde_json::Error),
}

/// The failure of a handshake. It ends the admission: no peer is asked
/// again, and no server is started with the sessions accepted before it.
#[derive(Debug)]
pub struct AdmissionError {
    /// The id that the peer would have had: the number of sessions accepted
    /// before it.
    pub session: usize,
    /// Why the handshake failed: it could not be read, or not be decoded.
    pub cause: SyncError,
}

impl From<std::io::Error> for SyncError {
    fn from(source: std::io::Error) -> (r: SyncError) {
        SyncError::Io(source)
    }
}

impl FromSpecImpl<std::io::Error> for SyncError {
    open spec fn obeys_from_spec() -> bool {
        true
    }

    open spec fn from_spec(source: std::io::Error) -> SyncError {
        SyncError::Io(source)
    }
}

impl From<serde_json::Error> for SyncError {
    fn from(source: serde_json::Error) -> (r: SyncError) {
        SyncError::Serde(source)
    }
}

impl FromSpecImpl<serde_json::Error> for SyncError {
    open spec fn obeys_from_spec() -> bool {
        true
    }

    open spec fn from_spec(source: serde_json::Error) -> SyncError {
        SyncError::Serde(source)
    }
}

} // verus!

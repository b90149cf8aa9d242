//! The error taxonomy of the networking core.

use vstd::prelude::*;

verus! {

/// Everything that can go wrong around a session.
///
/// `ConfigurationError` is fatal before any session exists; `TransportNotReady`
/// means poll again; `PeerDisconnected` drops the session back to the lobby;
/// `DesyncDetected` signals a violated determinism contract and is surfaced,
/// never auto-corrected; `InputDecodeError` marks a malformed wire record,
/// which a well-formed fixed-width record can never produce.
#[derive(Clone, Copy, Debug, PartialEq, Eq, Structural)]
pub enum GameError {
    ConfigurationError,
    TransportNotReady,
    PeerDisconnected,
    DesyncDetected,
    InputDecodeError,
}

} // verus!

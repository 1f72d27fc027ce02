//! Errors of the protocol logic.

use crate::session::SessionState;
use vstd::prelude::*;

verus! {

/// What can go wrong while decoding, negotiating or framing.
#[derive(Debug)]
pub enum OaatError {
    UnknownFormat(u8),
    InvalidPacketFlags(u8),
    InvalidClockSyncType(u8),
    InvalidStateTransition { from: SessionState, to: SessionState },
    InvalidCapabilityString(String),
    VersionMismatch { expected: u32, got: u32 },
    MessageTooLarge(usize),
    IncompleteFrame { need: usize, have: usize },
    /// A request the protocol state does not allow (an unknown zone or member).
    Protocol(String),
}

} // verus!

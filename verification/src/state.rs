//! The protocol phase of a connection.

use vstd::prelude::*;

verus! {

/// Protocol phase. A connection starts in `Handshake` and moves forward
/// only; no phase is ever re-entered.
#[derive(Clone, Copy, Debug, PartialEq, Eq, Structural)]
pub enum State {
    Handshake,
    Status,
    Login,
    Configuration,
    Play,
}

} // verus!

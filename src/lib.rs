//! Core of a telemetry bridge: bounded histories, shared status, the
//! broker-link state machine, command publication and live-update sessions.
use vstd::prelude::*;

pub mod history;
pub mod records;
pub mod results;
pub mod state;
pub mod link;
pub mod session;
pub mod frames;

verus! {

} // verus!

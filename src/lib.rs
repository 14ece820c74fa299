//! Gateway between timing devices and the competition back-end: protocol
//! records, firmware versions and selection, device sessions, the back-end
//! multiplexer's bookkeeping and the hardware-in-the-loop test engine.

pub mod text;
pub mod version;
pub mod unix;
pub mod snapshot;
pub mod hil;
pub mod state;
pub mod packets;
pub mod firmware;
pub mod translate;
pub mod mux;
pub mod session;
mod outside;

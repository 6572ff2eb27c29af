//! Command framing for a daisy-chained bank of serial relay cards.
//!
//! A host switches, resets or toggles the eight relays of each card on a
//! shared serial line with four-byte frames. This crate holds the protocol:
//! how a frame is built, how a card is addressed, how a reply is judged, the
//! handshake that synchronises with the chain, and the sequencing of one
//! operation over several cards. It performs no I/O; the caller owns the line,
//! writes what the session hands out and feeds back what it read.

pub mod batch;
pub mod buffer;
pub mod command;
pub mod error;
pub mod frame;
pub mod relay;
pub mod session;

pub use batch::{Action, Batch, Event};
pub use command::{CardIndex, Relay8xCmdSet};
pub use error::{CardFailure, Error, ProtocolError};
pub use frame::Frame;
pub use relay::RelayIndex;
pub use session::{AddressPolicy, InitStep, Relay8x, SessionState};

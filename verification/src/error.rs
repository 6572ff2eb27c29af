//! The failures that the protocol can report.

use vstd::prelude::*;

verus! {

/// A reply that broke one of the rules a card's answer has to follow.
#[derive(Clone, Copy, Debug, PartialEq, Eq, Structural)]
pub enum ProtocolError {
    /// The first byte was not the one's complement of the command code.
    BadAck { expected: u8, actual: u8 },
    /// The reply named another card than the one addressed.
    AddressMismatch { expected: u8, actual: u8 },
    /// The last byte was not the XOR of the three before it.
    ChecksumMismatch,
}

/// Everything that can go wrong in a session.
#[derive(Clone, Copy, Debug, PartialEq, Eq, Structural)]
pub enum Error {
    /// The line failed, or did not deliver one whole frame.
    Transport,
    /// A relay number outside 1..=8 was asked for.
    InvalidRelayNumber,
    /// A card offset of zero, or one that leads past the last bus address.
    InvalidCardOffset,
    /// A card answered, but not as the protocol demands.
    Protocol(ProtocolError),
    /// The handshake saw no matching reply before its deadline.
    InitTimeout,
    /// A command was asked of a session whose handshake has not succeeded.
    NotReady,
}

/// Which card of a batch failed, and why.
#[derive(Clone, Copy, Debug, PartialEq, Eq, Structural)]
pub struct CardFailure {
    /// Position of the card in the list the batch was started with.
    pub index: usize,
    /// The card's offset as the caller gave it.
    pub card: u8,
    /// What went wrong: `Error::Transport` or `Error::Protocol(..)`.
    pub reason: Error,
}

} // verus!

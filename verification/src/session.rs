//! The session with a chain of cards: its state, the handshake that makes it
//! ready, and the rules a card's reply is held to.

use crate::buffer::buffer_bytes;
use crate::command::Relay8xCmdSet;
use crate::error::{Error, ProtocolError};
use crate::frame::Frame;
use bytes::BytesMut;
use vstd::prelude::*;

verus! {

/// Speed of the line, in baud. The line runs 8 data bits, no parity, one stop
/// bit and no flow control.
pub const BAUD_RATE: u32 = 19200;

/// How long a single read or write on the line may take, in milliseconds.
pub const IO_TIMEOUT_MS: u64 = 1000;

/// How long the handshake may poll for the reply of the addressed card, in
/// seconds, counted from its first read.
pub const INIT_DEADLINE_SECS: u64 = 30;

/// How the address byte of a reply is held against the one that was sent.
#[derive(Clone, Copy, Debug, PartialEq, Eq, Structural)]
pub enum AddressPolicy {
    /// The reply must echo the address.
    Strict,
    /// As `Strict`, but a command sent to address 0 accepts a reply from any
    /// address.
    ZeroWildcard,
}

/// Where a session stands.
#[derive(Clone, Copy, Debug, PartialEq, Eq, Structural)]
pub enum SessionState {
    /// No handshake has been run.
    Uninitialized,
    /// The handshake succeeded: commands are accepted.
    Ready,
    /// The last handshake timed out: only another handshake helps.
    Degraded,
}

/// What the handshake wants after a reply it did not fail on.
#[derive(Clone, Copy, Debug, PartialEq, Eq, Structural)]
pub enum InitStep {
    /// The addressed card answered. The session is ready.
    Done,
    /// The reply came from another card of the chain: read the next one.
    ReadAgain,
}

/// A card acknowledges a command with the one's complement of its code.
pub open spec fn ack_ok(sent: Frame, received: Frame) -> bool {
    received.command == !sent.command
}

/// The reply names the card that was addressed, or any card where the policy
/// lets address 0 stand for all.
pub open spec fn address_ok(sent: Frame, received: Frame, policy: AddressPolicy) -> bool {
    received.address == sent.address || (policy == AddressPolicy::ZeroWildcard && sent.address
        == 0)
}

/// The judgement on a reply. The rules are tried in the order acknowledgement,
/// address, checksum, and the first one broken is reported.
pub open spec fn response_verdict(sent: Frame, received: Frame, policy: AddressPolicy) -> Result<
    (),
    ProtocolError,
> {
    if !ack_ok(sent, received) {
        Err(ProtocolError::BadAck { expected: !sent.command, actual: received.command })
    } else if !address_ok(sent, received, policy) {
        Err(ProtocolError::AddressMismatch { expected: sent.address, actual: received.address })
    } else if !received.well_formed() {
        Err(ProtocolError::ChecksumMismatch)
    } else {
        Ok(())
    }
}

/// A session as contracts see it.
pub struct SessionView {
    /// Bus address of the first card of the chain.
    pub start_address: u8,
    /// Where the session stands.
    pub state: SessionState,
    /// How reply addresses are judged.
    pub policy: AddressPolicy,
}

impl SessionView {
    /// What the handshake answers to one reply, read `elapsed_secs` whole
    /// seconds after its first read: done if the first byte is the start
    /// address, timed out if it is not and the deadline has passed, and
    /// otherwise a request for the next reply.
    pub open spec fn reply_outcome(self, response: Frame, elapsed_secs: u64) -> Result<
        InitStep,
        Error,
    > {
        if response.command == self.start_address {
            Ok(InitStep::Done)
        } else if elapsed_secs > INIT_DEADLINE_SECS {
            Err(Error::InitTimeout)
        } else {
            Ok(InitStep::ReadAgain)
        }
    }

    /// The session after that reply: ready when the handshake is done,
    /// degraded when it timed out, unchanged when it goes on.
    pub open spec fn after_reply(self, response: Frame, elapsed_secs: u64) -> SessionView {
        match self.reply_outcome(response, elapsed_secs) {
            Ok(InitStep::Done) => SessionView { state: SessionState::Ready, ..self },
            Ok(InitStep::ReadAgain) => self,
            Err(_) => SessionView { state: SessionState::Degraded, ..self },
        }
    }

    /// The session after a run of replies, each with the seconds at which it
    /// was read.
    pub open spec fn after_replies(self, replies: Seq<(Frame, u64)>) -> SessionView
        decreases replies.len(),
    {
        if replies.len() == 0 {
            self
        } else {
            self.after_replies(replies.drop_last()).after_reply(
                replies.last().0,
                replies.last().1,
            )
        }
    }
}

/// Replies of other cards, read within the deadline, leave the session as it
/// was, however many there are; the first reply whose first byte is the start
/// address then makes it ready, whenever it comes.
pub proof fn lemma_handshake_ends_on_match(
    session: SessionView,
    others: Seq<(Frame, u64)>,
    response: Frame,
    elapsed_secs: u64,
)
    requires
        forall|i: int|
            0 <= i < others.len() ==> (#[trigger] others[i]).0.command != session.start_address
                && others[i].1 <= INIT_DEADLINE_SECS,
        response.command == session.start_address,
    ensures
        session.after_replies(others) == session,
        session.after_replies(others.push((response, elapsed_secs))) == (SessionView {
            state: SessionState::Ready,
            ..session
        }),
    decreases others.len(),
{
    if others.len() > 0 {
        lemma_handshake_ends_on_match(session, others.drop_last(), response, elapsed_secs);
        assert(others.last() == others[others.len() - 1]);
    }
    assert(others.push((response, elapsed_secs)).drop_last() == others);
}

/// A reply of another card that is read past the deadline degrades the
/// session, whatever state it was in.
pub proof fn lemma_handshake_times_out(session: SessionView, response: Frame, elapsed_secs: u64)
    requires
        response.command != session.start_address,
        elapsed_secs > INIT_DEADLINE_SECS,
    ensures
        session.reply_outcome(response, elapsed_secs) == Err::<InitStep, Error>(
            Error::InitTimeout,
        ),
        session.after_reply(response, elapsed_secs).state == SessionState::Degraded,
{
}

/// A session with one chain of relay cards.
#[derive(Debug)]
pub struct Relay8x {
    start_address: u8,
    state: SessionState,
    policy: AddressPolicy,
}

impl View for Relay8x {
    type V = SessionView;

    closed spec fn view(&self) -> SessionView {
        SessionView { start_address: self.start_address, state: self.state, policy: self.policy }
    }
}

impl Relay8x {
    /// A session for the chain whose first card sits at `address`. It starts
    /// uninitialised and judges reply addresses strictly.
    pub fn new(address: u8) -> (session: Relay8x)
        ensures
            session@ == (SessionView {
                start_address: address,
                state: SessionState::Uninitialized,
                policy: AddressPolicy::Strict,
            }),
    {
        Relay8x {
            start_address: address,
            state: SessionState::Uninitialized,
            policy: AddressPolicy::Strict,
        }
    }

    /// Bus address of the first card.
    pub fn start_address(&self) -> (a: u8)
        ensures
            a == self@.start_address,
    {
        self.start_address
    }

    /// Where the session stands.
    pub fn state(&self) -> (s: SessionState)
        ensures
            s == self@.state,
    {
        self.state
    }

    /// How reply addresses are judged.
    pub fn policy(&self) -> (p: AddressPolicy)
        ensures
            p == self@.policy,
    {
        self.policy
    }

    /// Chooses how reply addresses are judged from now on. Nothing else
    /// changes.
    pub fn set_policy(&mut self, policy: AddressPolicy)
        ensures
            final(self)@ == (SessionView { policy: policy, ..old(self)@ }),
    {
        self.policy = policy;
    }

    /// Opens the handshake: returns the `Init` frame, addressed to the first
    /// card, that is to be written once the line is set up.
    pub fn configure_device(&self) -> (cmd: BytesMut)
        ensures
            buffer_bytes(cmd) == Frame::sealed(1u8, self@.start_address, 0u8)@,
    {
        Frame::new(Relay8xCmdSet::Init.wire_code(), self.start_address, 0).to_buffer()
    }

    /// Takes one reply read during the handshake, with the whole seconds that
    /// have passed since its first read.
    ///
    /// A reply whose first byte is the start address ends the handshake and
    /// makes the session ready, however late it comes. Any other reply is
    /// dropped: within the deadline the session stays as it was and the next
    /// reply is to be read; past it the handshake has failed and the session
    /// is degraded.
    pub fn init_device(&mut self, response: Frame, elapsed_secs: u64) -> (r: Result<
        InitStep,
        Error,
    >)
        ensures
            r == old(self)@.reply_outcome(response, elapsed_secs),
            final(self)@ == old(self)@.after_reply(response, elapsed_secs),
            final(self)@.start_address == old(self)@.start_address,
            final(self)@.policy == old(self)@.policy,
            response.command == old(self)@.start_address ==> r == Ok::<InitStep, Error>(
                InitStep::Done,
            ) && final(self)@.state == SessionState::Ready,
            response.command != old(self)@.start_address && elapsed_secs > INIT_DEADLINE_SECS ==> r
                == Err::<InitStep, Error>(Error::InitTimeout) && final(self)@.state
                == SessionState::Degraded,
            response.command != old(self)@.start_address && elapsed_secs <= INIT_DEADLINE_SECS
                ==> r == Ok::<InitStep, Error>(InitStep::ReadAgain) && final(self)@.state == old(
                self,
            )@.state,
    {
        if response.command == self.start_address {
            self.state = SessionState::Ready;
            Ok(InitStep::Done)
        } else if elapsed_secs > INIT_DEADLINE_SECS {
            self.state = SessionState::Degraded;
            Err(Error::InitTimeout)
        } else {
            Ok(InitStep::ReadAgain)
        }
    }

    /// Judges the reply `msg` to the command `sent_msg`. It is accepted exactly
    /// when it acknowledges the command, names the right card and carries a
    /// correct checksum; otherwise the first of these that fails is reported.
    pub fn check_response(msg: &Frame, sent_msg: &Frame, policy: AddressPolicy) -> (r: Result<
        (),
        ProtocolError,
    >)
        ensures
            r == response_verdict(*sent_msg, *msg, policy),
            r is Ok <==> ack_ok(*sent_msg, *msg) && address_ok(*sent_msg, *msg, policy)
                && msg.well_formed(),
            !ack_ok(*sent_msg, *msg) ==> r == Err::<(), ProtocolError>(
                ProtocolError::BadAck { expected: !sent_msg.command, actual: msg.command },
            ),
            ack_ok(*sent_msg, *msg) && !address_ok(*sent_msg, *msg, policy) ==> r == Err::<
                (),
                ProtocolError,
            >(ProtocolError::AddressMismatch { expected: sent_msg.address, actual: msg.address }),
            ack_ok(*sent_msg, *msg) && address_ok(*sent_msg, *msg, policy) && !msg.well_formed()
                ==> r == Err::<(), ProtocolError>(ProtocolError::ChecksumMismatch),
    {
        let expected_ack: u8 = !sent_msg.command;
        if msg.command != expected_ack {
            return Err(ProtocolError::BadAck { expected: expected_ack, actual: msg.command });
        }
        let wildcard = match policy {
            AddressPolicy::ZeroWildcard => sent_msg.address == 0,
            AddressPolicy::Strict => false,
        };
        if msg.address != sent_msg.address && !wildcard {
            return Err(
                ProtocolError::AddressMismatch { expected: sent_msg.address, actual: msg.address },
            );
        }
        if !msg.is_well_formed() {
            return Err(ProtocolError::ChecksumMismatch);
        }
        Ok(())
    }
}

} // verus!

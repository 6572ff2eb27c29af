//! One operation over several cards, one card at a time.
//!
//! A batch is the plan for one `set`, `reset` or `toggle`: a frame for each
//! card, in the caller's order. The caller writes the frame the batch hands
//! out, reads one reply, and reports it; the batch judges the reply and hands
//! out the next frame, or stops at the first card that fails.

use crate::buffer::buffer_bytes;
use crate::command::{card_address, CardIndex, Relay8xCmdSet};
use crate::error::{CardFailure, Error};
use crate::frame::Frame;
use crate::relay::{relay_mask, valid_relays, RelayIndex};
use crate::session::{response_verdict, AddressPolicy, Relay8x, SessionState, SessionView};
use bytes::BytesMut;
use vstd::prelude::*;

verus! {

/// What the caller reports after it has written the frame it was handed.
#[derive(Clone, Copy, Debug, PartialEq, Eq, Structural)]
pub enum Event {
    /// One whole frame was read back.
    Reply(Frame),
    /// The write or the read failed, or the read did not yield one frame.
    ChannelFailed,
}

/// What the batch wants done next.
#[derive(Clone, Copy, Debug, PartialEq, Eq, Structural)]
pub enum Action {
    /// Write this frame, read one reply, and report it.
    Send(Frame),
    /// Every card has answered well. The replies can be collected.
    Finished,
    /// A card failed. Nothing more is to be sent.
    Failed(CardFailure),
}

/// Every offset addresses a card on the bus that starts at `start_address`.
pub open spec fn valid_cards(start_address: u8, cards: Seq<u8>) -> bool {
    forall|i: int|
        0 <= i < cards.len() ==> card_address(start_address, Some(#[trigger] cards[i])) is Some
}

/// The frames of a batch: for each card, in order, the frame that carries
/// `kind` and `relays` to it.
pub open spec fn planned_frames(
    kind: Relay8xCmdSet,
    start_address: u8,
    cards: Seq<u8>,
    relays: Seq<u8>,
) -> Seq<Frame> {
    Seq::new(cards.len(), |i: int| kind.frame_for(start_address, Some(cards[i]), relays)->Ok_0)
}

/// A batch as contracts see it.
pub struct BatchView {
    /// The frame for each card, in the order of `cards`.
    pub frames: Seq<Frame>,
    /// The card offsets as the caller gave them.
    pub cards: Seq<u8>,
    /// How reply addresses are judged.
    pub policy: AddressPolicy,
    /// The replies accepted so far, one for each card already done.
    pub responses: Seq<Frame>,
    /// The card that failed, once one has.
    pub failure: Option<CardFailure>,
}

impl BatchView {
    /// There is a frame for each card, no more replies than cards, and a
    /// failure names the card that was next in line.
    pub open spec fn wf(self) -> bool {
        &&& self.frames.len() == self.cards.len()
        &&& self.frames.len() <= usize::MAX
        &&& self.responses.len() <= self.frames.len()
        &&& self.failure is Some ==> {
            &&& self.responses.len() < self.frames.len()
            &&& self.failure->0.index == self.responses.len()
            &&& self.failure->0.card == self.cards[self.responses.len() as int]
        }
    }

    /// What the batch wants done in this state.
    pub open spec fn action(self) -> Action {
        match self.failure {
            Some(f) => Action::Failed(f),
            None => if self.responses.len() < self.frames.len() {
                Action::Send(self.frames[self.responses.len() as int])
            } else {
                Action::Finished
            },
        }
    }

    /// Why `event` fails the card at position `i`, if it does: a failure of
    /// the channel, or a reply that breaks a rule.
    pub open spec fn rejection(self, i: int, event: Event) -> Option<Error> {
        match event {
            Event::Reply(reply) => match response_verdict(self.frames[i], reply, self.policy) {
                Ok(_) => None,
                Err(e) => Some(Error::Protocol(e)),
            },
            Event::ChannelFailed => Some(Error::Transport),
        }
    }

    /// The state after `event`. A batch that has failed or finished stays as
    /// it is. Otherwise the event concerns the card next in line: a reply that
    /// passes the rules is kept and the batch moves on; one that does not, or a
    /// failure of the channel, fails the batch at that card.
    pub open spec fn step(self, event: Event) -> BatchView {
        let i = self.responses.len();
        if self.failure is Some || i >= self.frames.len() {
            self
        } else {
            match self.rejection(i as int, event) {
                None => BatchView { responses: self.responses.push(event->Reply_0), ..self },
                Some(reason) => BatchView {
                    failure: Some(
                        CardFailure { index: i as usize, card: self.cards[i as int], reason },
                    ),
                    ..self
                },
            }
        }
    }

    /// No reply has been taken yet, and no card has failed.
    pub open spec fn fresh(self) -> bool {
        self.responses.len() == 0 && self.failure is None
    }

    /// The state after a run of events, first to last.
    pub open spec fn run(self, events: Seq<Event>) -> BatchView
        decreases events.len(),
    {
        if events.len() == 0 {
            self
        } else {
            self.run(events.drop_last()).step(events.last())
        }
    }
}

/// What starting a batch on a session yields. A session that is not ready
/// refuses. Then the relay numbers are checked, then the card offsets; only if
/// all are in order is there a batch, and it has neither replies nor failure.
pub open spec fn batch_for(
    session: SessionView,
    kind: Relay8xCmdSet,
    cards: Seq<u8>,
    relays: Seq<u8>,
) -> Result<BatchView, Error> {
    if session.state != SessionState::Ready {
        Err(Error::NotReady)
    } else if !valid_relays(relays) {
        Err(Error::InvalidRelayNumber)
    } else if !valid_cards(session.start_address, cards) {
        Err(Error::InvalidCardOffset)
    } else {
        Ok(
            BatchView {
                frames: planned_frames(kind, session.start_address, cards, relays),
                cards: cards,
                policy: session.policy,
                responses: Seq::<Frame>::empty(),
                failure: None,
            },
        )
    }
}

/// One operation in progress.
#[derive(Debug)]
pub struct Batch {
    frames: Vec<Frame>,
    cards: Vec<u8>,
    policy: AddressPolicy,
    responses: Vec<Frame>,
    failure: Option<CardFailure>,
}

impl View for Batch {
    type V = BatchView;

    closed spec fn view(&self) -> BatchView {
        BatchView {
            frames: self.frames@,
            cards: self.cards@,
            policy: self.policy,
            responses: self.responses@,
            failure: self.failure,
        }
    }
}

impl Event {
    /// The event for what a read left in `bytes`: a reply if it is exactly one
    /// frame, a failure of the channel if not.
    pub fn received(bytes: &BytesMut) -> (event: Event)
        ensures
            buffer_bytes(*bytes).len() == 4 ==> event == Event::Reply(
                Frame::of_bytes(buffer_bytes(*bytes)),
            ),
            buffer_bytes(*bytes).len() != 4 ==> event == Event::ChannelFailed,
    {
        match Frame::decode(bytes) {
            Some(frame) => Event::Reply(frame),
            None => Event::ChannelFailed,
        }
    }
}

impl Batch {
    /// What the batch wants done now.
    pub fn action(&self) -> (action: Action)
        ensures
            action == self@.action(),
    {
        match self.failure {
            Some(f) => Action::Failed(f),
            None => {
                let i = self.responses.len();
                if i < self.frames.len() {
                    Action::Send(self.frames[i])
                } else {
                    Action::Finished
                }
            },
        }
    }

    /// Takes the outcome of the exchange with the card next in line, and says
    /// what is to be done after it.
    pub fn step(&mut self, event: Event) -> (action: Action)
        requires
            old(self)@.wf(),
        ensures
            final(self)@ == old(self)@.step(event),
            action == final(self)@.action(),
            final(self)@.wf(),
    {
        let i = self.responses.len();
        if self.failure.is_none() && i < self.frames.len() {
            let failed = match event {
                Event::Reply(reply) => match Relay8x::check_response(
                    &reply,
                    &self.frames[i],
                    self.policy,
                ) {
                    Ok(_) => {
                        self.responses.push(reply);
                        None
                    },
                    Err(e) => Some(Error::Protocol(e)),
                },
                Event::ChannelFailed => Some(Error::Transport),
            };
            if let Some(reason) = failed {
                self.failure = Some(CardFailure { index: i, card: self.cards[i], reason });
            }
        }
        assert(self@ == old(self)@.step(event));
        self.action()
    }

    /// The replies accepted so far, in the order of the cards; all of them once
    /// the batch has finished.
    pub fn into_responses(self) -> (responses: Vec<Frame>)
        ensures
            responses@ == self@.responses,
    {
        self.responses
    }
}

impl Relay8x {
    fn apply(&self, kind: Relay8xCmdSet, cards: CardIndex, numbers: RelayIndex) -> (r: Result<
        Batch,
        Error,
    >)
        requires
            kind != Relay8xCmdSet::Init,
        ensures
            match batch_for(self@, kind, cards@, numbers@) {
                Ok(b) => r is Ok && r->Ok_0@ == b && b.wf(),
                Err(e) => r is Err && r->Err_0 == e,
            },
    {
        match self.state() {
            SessionState::Ready => {},
            _ => {
                return Err(Error::NotReady);
            },
        }
        if let Err(e) = Relay8xCmdSet::relay_as_u8(&numbers) {
            return Err(e);
        }
        let start_address = self.start_address();
        let mut frames: Vec<Frame> = Vec::new();
        let mut i: usize = 0;
        while i < cards.len()
            invariant
                i <= cards.len(),
                kind != Relay8xCmdSet::Init,
                self@.state == SessionState::Ready,
                start_address == self@.start_address,
                valid_relays(numbers@),
                valid_cards(start_address, cards@.take(i as int)),
                frames@ == planned_frames(kind, start_address, cards@.take(i as int), numbers@),
            decreases cards.len() - i,
        {
            let frame = match kind.frame(start_address, Some(cards[i]), &numbers) {
                Ok(f) => f,
                Err(e) => {
                    assert(card_address(start_address, Some(cards@[i as int])) is None);
                    assert(!valid_cards(start_address, cards@));
                    return Err(e);
                },
            };
            frames.push(frame);
            proof {
                let before = cards@.take(i as int);
                let after = cards@.take(i + 1);
                assert forall|j: int| 0 <= j < after.len() implies card_address(
                    start_address,
                    Some(#[trigger] after[j]),
                ) is Some by {
                    if j < i {
                        assert(after[j] == before[j]);
                    }
                }
                assert(frames@ =~= planned_frames(kind, start_address, after, numbers@));
            }
            i += 1;
        }
        assert(cards@.take(i as int) == cards@);
        Ok(Batch { frames, cards, policy: self.policy(), responses: Vec::new(), failure: None })
    }

    /// Plans switching the relays `numbers` on, on each of `cards` in turn.
    pub fn set_relays(&self, cards: CardIndex, numbers: RelayIndex) -> (r: Result<Batch, Error>)
        ensures
            match batch_for(self@, Relay8xCmdSet::SetOn, cards@, numbers@) {
                Ok(b) => r is Ok && r->Ok_0@ == b && b.wf(),
                Err(e) => r is Err && r->Err_0 == e,
            },
    {
        self.apply(Relay8xCmdSet::SetOn, cards, numbers)
    }

    /// Plans switching the relays `numbers` off, on each of `cards` in turn.
    pub fn reset_relays(&self, cards: CardIndex, numbers: RelayIndex) -> (r: Result<Batch, Error>)
        ensures
            match batch_for(self@, Relay8xCmdSet::Reset, cards@, numbers@) {
                Ok(b) => r is Ok && r->Ok_0@ == b && b.wf(),
                Err(e) => r is Err && r->Err_0 == e,
            },
    {
        self.apply(Relay8xCmdSet::Reset, cards, numbers)
    }

    /// Plans flipping the relays `numbers`, on each of `cards` in turn.
    pub fn toggle_relays(&self, cards: CardIndex, numbers: RelayIndex) -> (r: Result<Batch, Error>)
        ensures
            match batch_for(self@, Relay8xCmdSet::Toggle, cards@, numbers@) {
                Ok(b) => r is Ok && r->Ok_0@ == b && b.wf(),
                Err(e) => r is Err && r->Err_0 == e,
            },
    {
        self.apply(Relay8xCmdSet::Toggle, cards, numbers)
    }
}

/// A session that is not ready starts no batch, whatever it is asked for. So
/// after a handshake that timed out, nothing is sent until one succeeds.
pub proof fn lemma_not_ready_refuses(
    session: SessionView,
    kind: Relay8xCmdSet,
    cards: Seq<u8>,
    relays: Seq<u8>,
)
    requires
        session.state != SessionState::Ready,
    ensures
        batch_for(session, kind, cards, relays) == Err::<BatchView, Error>(Error::NotReady),
{
}

/// Each frame of a batch goes to its card's address, carries the command's
/// code and the relay mask, and is sealed with the XOR of the three.
pub proof fn lemma_planned_frame(
    kind: Relay8xCmdSet,
    start_address: u8,
    cards: Seq<u8>,
    relays: Seq<u8>,
    i: int,
)
    requires
        kind != Relay8xCmdSet::Init,
        valid_relays(relays),
        valid_cards(start_address, cards),
        0 <= i < cards.len(),
    ensures
        planned_frames(kind, start_address, cards, relays).len() == cards.len(),
        planned_frames(kind, start_address, cards, relays)[i] == Frame::sealed(
            kind.code(),
            (start_address + cards[i] - 1) as u8,
            relay_mask(relays),
        ),
        planned_frames(kind, start_address, cards, relays)[i].well_formed(),
        1 <= cards[i],
        start_address + cards[i] - 1 <= 255,
{
    assert(card_address(start_address, Some(cards[i])) is Some);
}

/// A step keeps a batch well formed.
pub proof fn lemma_step_wf(b: BatchView, event: Event)
    requires
        b.wf(),
    ensures
        b.step(event).wf(),
{
}

/// Running one run of events and then another is running the two in a row.
pub proof fn lemma_run_concat(b: BatchView, first: Seq<Event>, then_on: Seq<Event>)
    ensures
        b.run(first + then_on) == b.run(first).run(then_on),
    decreases then_on.len(),
{
    if then_on.len() == 0 {
        assert(first + then_on == first);
    } else {
        lemma_run_concat(b, first, then_on.drop_last());
        assert((first + then_on).drop_last() == first + then_on.drop_last());
        assert((first + then_on).last() == then_on.last());
    }
}

/// A batch that has failed or finished takes no notice of further events.
pub proof fn lemma_run_settled(b: BatchView, events: Seq<Event>)
    requires
        b.failure is Some || b.responses.len() >= b.frames.len(),
    ensures
        b.run(events) == b,
    decreases events.len(),
{
    if events.len() > 0 {
        lemma_run_settled(b, events.drop_last());
    }
}

/// As long as every reply passes, the batch keeps the replies in the order of
/// the cards and nothing else changes: after `k` good replies it holds those
/// `k`, and asks for the frame of card `k` or, if that was the last, is
/// finished.
pub proof fn lemma_run_accepted(b: BatchView, events: Seq<Event>)
    requires
        b.wf(),
        b.fresh(),
        events.len() <= b.frames.len(),
        forall|i: int| 0 <= i < events.len() ==> b.rejection(i, #[trigger] events[i]) is None,
    ensures
        b.run(events) == (BatchView {
            responses: Seq::new(events.len(), |i: int| events[i]->Reply_0),
            ..b
        }),
        events.len() == b.frames.len() ==> b.run(events).action() == Action::Finished,
        events.len() < b.frames.len() ==> b.run(events).action() == Action::Send(
            b.frames[events.len() as int],
        ),
    decreases events.len(),
{
    let kept = Seq::new(events.len(), |i: int| events[i]->Reply_0);
    if events.len() == 0 {
        assert(kept =~= b.responses);
    } else {
        let front = events.drop_last();
        lemma_run_accepted(b, front);
        let before = b.run(front);
        let kept_before = Seq::new(front.len(), |i: int| front[i]->Reply_0);
        assert(before.responses == kept_before);
        assert(before.rejection(front.len() as int, events.last()) == b.rejection(
            front.len() as int,
            events[front.len() as int],
        ));
        assert(kept_before.push(events.last()->Reply_0) =~= kept);
    }
}

/// The batch stops at the first card that fails. If the first `k` events are
/// good replies and the next one is not, then whatever is reported afterwards
/// the batch holds those `k` replies, names card `k` with the reason, and asks
/// for nothing more to be sent.
pub proof fn lemma_run_fails_fast(b: BatchView, events: Seq<Event>, k: int)
    requires
        b.wf(),
        b.fresh(),
        0 <= k < events.len(),
        k < b.frames.len(),
        forall|i: int| 0 <= i < k ==> b.rejection(i, #[trigger] events[i]) is None,
        b.rejection(k, events[k]) is Some,
    ensures
        b.run(events) == (BatchView {
            responses: Seq::new(k as nat, |i: int| events[i]->Reply_0),
            failure: Some(
                CardFailure {
                    index: k as usize,
                    card: b.cards[k],
                    reason: b.rejection(k, events[k])->0,
                },
            ),
            ..b
        }),
        b.run(events).action() == Action::Failed(
            CardFailure { index: k as usize, card: b.cards[k], reason: b.rejection(k, events[k])->0 },
        ),
{
    let good = events.take(k);
    let upto = events.take(k + 1);
    let rest = events.skip(k + 1);
    assert forall|i: int| 0 <= i < good.len() implies b.rejection(i, #[trigger] good[i])
        is None by {
        assert(good[i] == events[i]);
    }
    lemma_run_accepted(b, good);
    let before = b.run(good);
    assert(upto.drop_last() == good);
    assert(upto.last() == events[k]);
    assert(before.rejection(k, events[k]) == b.rejection(k, events[k]));
    let failed = b.run(upto);
    assert(failed == before.step(events[k]));
    assert(Seq::new(good.len(), |i: int| good[i]->Reply_0) =~= Seq::new(
        k as nat,
        |i: int| events[i]->Reply_0,
    ));
    lemma_run_settled(failed, rest);
    lemma_run_concat(b, upto, rest);
    assert(upto + rest == events);
}

} // verus!

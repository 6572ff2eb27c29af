//! The command set, and how a command becomes a frame.

use crate::buffer::buffer_bytes;
use crate::error::Error;
use crate::frame::{lemma_xor_fold_sealed, xor_fold, Frame};
use crate::relay::{
    lemma_relay_mask_bits, mask_has, relay_mask, valid_relay, valid_relays, RelayIndex,
};
use bytes::BytesMut;
use vstd::prelude::*;

verus! {

/// Card offsets, each at least 1, in the order in which the cards are to be
/// commanded. Offset 1 is the first card of the chain.
pub type CardIndex = Vec<u8>;

/// The commands a card understands.
#[derive(Clone, Copy, Debug, PartialEq, Eq, Structural)]
pub enum Relay8xCmdSet {
    /// Synchronise the chain and assign addresses.
    Init,
    /// Switch the named relays on.
    SetOn,
    /// Flip the named relays.
    Toggle,
    /// Switch the named relays off.
    Reset,
}

/// The bus address of the card at `card`, counted from 1 at `address`; an
/// absent offset means the first card. `None` where the offset is zero or the
/// address would lie beyond 255.
pub open spec fn card_address(address: u8, card: Option<u8>) -> Option<u8> {
    let offset = match card {
        Some(k) => k,
        None => 1u8,
    };
    if 1 <= offset && address + offset - 1 <= 255 {
        Some((address + offset - 1) as u8)
    } else {
        None
    }
}

/// The relays a command carries: those given, or none.
pub open spec fn relays_given(relays: Option<&RelayIndex>) -> Seq<u8> {
    match relays {
        Some(v) => v@,
        None => Seq::<u8>::empty(),
    }
}

impl Relay8xCmdSet {
    /// The code that stands for the command on the wire.
    pub open spec fn code(self) -> u8 {
        match self {
            Relay8xCmdSet::Init => 1u8,
            Relay8xCmdSet::SetOn => 6u8,
            Relay8xCmdSet::Reset => 7u8,
            Relay8xCmdSet::Toggle => 8u8,
        }
    }

    /// What `encode` produces. `Init` goes to the start address itself and
    /// carries no data. The others go to the card at the given offset and
    /// carry the relay mask; a relay number outside 1..=8 is refused first,
    /// then an offset that addresses no card.
    pub open spec fn frame_for(self, start_address: u8, card: Option<u8>, relays: Seq<u8>) -> Result<
        Frame,
        Error,
    > {
        if self == Relay8xCmdSet::Init {
            Ok(Frame::sealed(self.code(), start_address, 0u8))
        } else if !valid_relays(relays) {
            Err(Error::InvalidRelayNumber)
        } else {
            match card_address(start_address, card) {
                None => Err(Error::InvalidCardOffset),
                Some(a) => Ok(Frame::sealed(self.code(), a, relay_mask(relays))),
            }
        }
    }

    /// The code that stands for the command on the wire.
    pub fn wire_code(&self) -> (c: u8)
        ensures
            c == self.code(),
    {
        match self {
            Relay8xCmdSet::Init => 1,
            Relay8xCmdSet::SetOn => 6,
            Relay8xCmdSet::Reset => 7,
            Relay8xCmdSet::Toggle => 8,
        }
    }

    /// XOR checksum over a run of bytes.
    pub fn checksummed(x: &[u8]) -> (sum: u8)
        ensures
            sum == xor_fold(x@),
    {
        let mut sum: u8 = 0;
        let mut i: usize = 0;
        while i < x.len()
            invariant
                i <= x.len(),
                sum == xor_fold(x@.take(i as int)),
            decreases x.len() - i,
        {
            assert(x@.take(i + 1).drop_last() == x@.take(i as int));
            sum = sum ^ x[i];
            i += 1;
        }
        assert(x@.take(i as int) == x@);
        sum
    }

    /// Resolves a card offset to a bus address. Cards take consecutive
    /// addresses from `address` on, so offset `k` is `address + k - 1`, and no
    /// offset is the first card. Offset zero, or one that leads past address
    /// 255, is refused.
    pub fn addressed(address: u8, card: Option<u8>) -> (r: Result<u8, Error>)
        ensures
            card is None ==> r == Ok::<u8, Error>(address),
            card is Some && 1 <= card->0 && address + card->0 - 1 <= 255 ==> r == Ok::<u8, Error>(
                (address + card->0 - 1) as u8,
            ),
            card is Some && !(1 <= card->0 && address + card->0 - 1 <= 255) ==> r == Err::<
                u8,
                Error,
            >(Error::InvalidCardOffset),
            r == match card_address(address, card) {
                Some(a) => Ok::<u8, Error>(a),
                None => Err::<u8, Error>(Error::InvalidCardOffset),
            },
    {
        let offset: u8 = match card {
            Some(k) => k,
            None => 1,
        };
        if offset == 0 {
            return Err(Error::InvalidCardOffset);
        }
        match address.checked_add(offset - 1) {
            Some(a) => Ok(a),
            None => Err(Error::InvalidCardOffset),
        }
    }

    /// Packs relay numbers into the data byte: relay `n` sets bit `n - 1`, and
    /// no other bit is set. A number outside 1..=8 is refused and nothing is
    /// packed.
    pub fn relay_as_u8(vec: &RelayIndex) -> (r: Result<u8, Error>)
        ensures
            valid_relays(vec@) ==> r == Ok::<u8, Error>(relay_mask(vec@)),
            !valid_relays(vec@) ==> r == Err::<u8, Error>(Error::InvalidRelayNumber),
            r is Ok ==> forall|n: u8|
                valid_relay(n) ==> (#[trigger] mask_has(r->Ok_0, n) <==> vec@.contains(n)),
    {
        let mut relay_bin: u8 = 0;
        let mut i: usize = 0;
        while i < vec.len()
            invariant
                i <= vec.len(),
                valid_relays(vec@.take(i as int)),
                relay_bin == relay_mask(vec@.take(i as int)),
            decreases vec.len() - i,
        {
            let x: u8 = vec[i];
            if x < 1 || x > 8 {
                return Err(Error::InvalidRelayNumber);
            }
            assert(vec@.take(i + 1).drop_last() == vec@.take(i as int));
            assert(vec@.take(i + 1).last() == x);
            relay_bin = relay_bin | (1u8 << (x - 1));
            i += 1;
        }
        proof {
            assert(vec@.take(i as int) == vec@);
            lemma_relay_mask_bits(vec@);
        }
        Ok(relay_bin)
    }

    /// Builds the frame for this command. See `frame_for`.
    pub fn frame(self, start_address: u8, card: Option<u8>, relays: &RelayIndex) -> (r: Result<
        Frame,
        Error,
    >)
        ensures
            r == self.frame_for(start_address, card, relays@),
            r is Ok ==> r->Ok_0.well_formed(),
    {
        match self {
            Relay8xCmdSet::Init => Ok(Frame::new(self.wire_code(), start_address, 0)),
            _ => {
                let relay_bin = match Relay8xCmdSet::relay_as_u8(relays) {
                    Ok(m) => m,
                    Err(e) => {
                        return Err(e);
                    },
                };
                let address = match Relay8xCmdSet::addressed(start_address, card) {
                    Ok(a) => a,
                    Err(e) => {
                        return Err(e);
                    },
                };
                Ok(Frame::new(self.wire_code(), address, relay_bin))
            },
        }
    }

    /// Appends the frame for this command to `bytes`, or refuses and leaves
    /// `bytes` as it was. `Init` needs no relays; every other command must be
    /// given its relay list.
    pub fn encode(
        self,
        bytes: &mut BytesMut,
        start_address: u8,
        card: Option<u8>,
        relays: Option<&RelayIndex>,
    ) -> (r: Result<(), Error>)
        requires
            self != Relay8xCmdSet::Init ==> relays is Some,
        ensures
            match self.frame_for(start_address, card, relays_given(relays)) {
                Ok(f) => r is Ok && f.well_formed() && buffer_bytes(*final(bytes)) == buffer_bytes(
                    *old(bytes),
                ) + f@,
                Err(e) => r == Err::<(), Error>(e) && buffer_bytes(*final(bytes)) == buffer_bytes(
                    *old(bytes),
                ),
            },
    {
        let built = match relays {
            Some(v) => self.frame(start_address, card, v),
            None => {
                let none: RelayIndex = Vec::new();
                self.frame(start_address, card, &none)
            },
        };
        match built {
            Ok(f) => {
                f.write_to(bytes);
                Ok(())
            },
            Err(e) => Err(e),
        }
    }
}

/// Every frame that can be built is sealed: its last byte is the XOR of the
/// three before it, and its first byte is the command's code.
pub proof fn lemma_frame_for_sealed(
    kind: Relay8xCmdSet,
    start_address: u8,
    card: Option<u8>,
    relays: Seq<u8>,
)
    requires
        kind.frame_for(start_address, card, relays) is Ok,
    ensures
        kind.frame_for(start_address, card, relays)->Ok_0.well_formed(),
        kind.frame_for(start_address, card, relays)->Ok_0.command == kind.code(),
        xor_fold(kind.frame_for(start_address, card, relays)->Ok_0@) == 0,
{
    let f = kind.frame_for(start_address, card, relays)->Ok_0;
    lemma_xor_fold_sealed(f);
}

/// A frame is refused exactly when the command carries relays and either one
/// of them is no relay number or the card offset addresses no card.
pub proof fn lemma_frame_for_refusals(
    kind: Relay8xCmdSet,
    start_address: u8,
    card: Option<u8>,
    relays: Seq<u8>,
)
    ensures
        kind.frame_for(start_address, card, relays) is Ok <==> kind == Relay8xCmdSet::Init || (
        valid_relays(relays) && card_address(start_address, card) is Some),
        kind.frame_for(start_address, card, relays) == Err::<Frame, Error>(
            Error::InvalidRelayNumber,
        ) <==> kind != Relay8xCmdSet::Init && !valid_relays(relays),
        kind.frame_for(start_address, card, relays) == Err::<Frame, Error>(
            Error::InvalidCardOffset,
        ) <==> kind != Relay8xCmdSet::Init && valid_relays(relays) && card_address(
            start_address,
            card,
        ) is None,
{
}

} // verus!

//! The four-byte frame, in both directions.

use crate::buffer::{
    buffer_as_slice, buffer_bytes, buffer_clear, buffer_put_u8, buffer_with_capacity,
};
use crate::command::Relay8xCmdSet;
use bytes::BytesMut;
use vstd::prelude::*;

verus! {

/// XOR of all bytes of `s`; zero for none.
pub open spec fn xor_fold(s: Seq<u8>) -> u8
    decreases s.len(),
{
    if s.len() == 0 {
        0u8
    } else {
        xor_fold(s.drop_last()) ^ s.last()
    }
}

/// One unit of the protocol: what the host sends, or what a card answers.
#[derive(Clone, Copy, Debug, PartialEq, Eq, Structural)]
pub struct Frame {
    /// Command code in a request, its one's complement in a reply.
    pub command: u8,
    /// Bus address of the card.
    pub address: u8,
    /// Relay bits in a request, the card's status in a reply.
    pub data: u8,
    /// XOR of the three bytes before it, in a frame that is intact.
    pub checksum: u8,
}

impl View for Frame {
    type V = Seq<u8>;

    /// The frame as it stands on the wire.
    open spec fn view(&self) -> Seq<u8> {
        seq![self.command, self.address, self.data, self.checksum]
    }
}

impl Frame {
    /// The checksum byte matches the other three.
    pub open spec fn well_formed(self) -> bool {
        self.checksum == self.command ^ self.address ^ self.data
    }

    /// The frame around three bytes, sealed with their XOR.
    pub open spec fn sealed(command: u8, address: u8, data: u8) -> Frame {
        Frame { command, address, data, checksum: command ^ address ^ data }
    }

    /// The frame whose wire bytes are `s`, for `s` of length four.
    pub open spec fn of_bytes(s: Seq<u8>) -> Frame {
        Frame { command: s[0], address: s[1], data: s[2], checksum: s[3] }
    }

    /// Builds a frame around three bytes and seals it with their checksum.
    pub fn new(command: u8, address: u8, data: u8) -> (f: Frame)
        ensures
            f == Frame::sealed(command, address, data),
            f.well_formed(),
    {
        let head: [u8; 3] = [command, address, data];
        let checksum = Relay8xCmdSet::checksummed(head.as_slice());
        proof {
            lemma_xor_fold_three(command, address, data);
            assert(head@ == seq![command, address, data]);
        }
        Frame { command, address, data, checksum }
    }

    /// The frame with the given wire bytes, whatever its checksum.
    pub fn from_bytes(b: [u8; 4]) -> (f: Frame)
        ensures
            f@ == b@,
            f == Frame::of_bytes(b@),
    {
        let f = Frame { command: b[0], address: b[1], data: b[2], checksum: b[3] };
        assert(f@ == b@);
        f
    }

    /// The wire bytes.
    pub fn to_bytes(&self) -> (b: [u8; 4])
        ensures
            b@ == self@,
    {
        let b: [u8; 4] = [self.command, self.address, self.data, self.checksum];
        assert(b@ == self@);
        b
    }

    /// Whether the checksum byte matches the other three.
    pub fn is_well_formed(&self) -> (ok: bool)
        ensures
            ok == self.well_formed(),
    {
        self.checksum == self.command ^ self.address ^ self.data
    }

    /// Appends the wire bytes to `bytes`.
    pub fn write_to(&self, bytes: &mut BytesMut)
        ensures
            buffer_bytes(*final(bytes)) == buffer_bytes(*old(bytes)) + self@,
    {
        buffer_put_u8(bytes, self.command);
        buffer_put_u8(bytes, self.address);
        buffer_put_u8(bytes, self.data);
        buffer_put_u8(bytes, self.checksum);
        assert(buffer_bytes(*bytes) == buffer_bytes(*old(bytes)) + self@);
    }

    /// A fresh buffer that holds the wire bytes and nothing else.
    pub fn to_buffer(&self) -> (bytes: BytesMut)
        ensures
            buffer_bytes(bytes) == self@,
    {
        let mut bytes = buffer_with_capacity(4);
        self.write_to(&mut bytes);
        assert(buffer_bytes(bytes) == self@);
        bytes
    }

    /// Replaces what `bytes` holds with the wire bytes.
    pub fn overwrite(&self, bytes: &mut BytesMut)
        ensures
            buffer_bytes(*final(bytes)) == self@,
    {
        buffer_clear(bytes);
        self.write_to(bytes);
        assert(buffer_bytes(*bytes) == self@);
    }

    /// Reads a frame out of a buffer that holds exactly one; `None` for a
    /// buffer of any other length.
    pub fn decode(bytes: &BytesMut) -> (r: Option<Frame>)
        ensures
            buffer_bytes(*bytes).len() == 4 ==> r == Some(Frame::of_bytes(buffer_bytes(*bytes))),
            buffer_bytes(*bytes).len() != 4 ==> r is None,
            r is Some ==> r->0@ == buffer_bytes(*bytes),
    {
        let s = buffer_as_slice(bytes);
        if s.len() != 4 {
            return None;
        }
        let f = Frame { command: s[0], address: s[1], data: s[2], checksum: s[3] };
        assert(f@ == buffer_bytes(*bytes));
        Some(f)
    }
}

/// The XOR over three bytes is the XOR of the three.
pub proof fn lemma_xor_fold_three(a: u8, b: u8, c: u8)
    ensures
        xor_fold(seq![a, b, c]) == a ^ b ^ c,
{
    let s3 = seq![a, b, c];
    let s2 = seq![a, b];
    let s1 = seq![a];
    assert(s3.drop_last() == s2);
    assert(s2.drop_last() == s1);
    assert(s1.drop_last() == Seq::<u8>::empty());
    assert(xor_fold(s1.drop_last()) == 0u8);
    assert(xor_fold(s1) == 0u8 ^ a);
    assert(xor_fold(s2) == (0u8 ^ a) ^ b);
    assert(xor_fold(s3) == ((0u8 ^ a) ^ b) ^ c);
    assert(((0u8 ^ a) ^ b) ^ c == a ^ b ^ c) by (bit_vector);
}

/// The XOR over all four bytes of a frame is zero exactly when the frame is
/// well formed.
pub proof fn lemma_xor_fold_sealed(f: Frame)
    ensures
        f.well_formed() <==> xor_fold(f@) == 0,
{
    let s4 = f@;
    let s3 = seq![f.command, f.address, f.data];
    assert(s4.drop_last() == s3);
    lemma_xor_fold_three(f.command, f.address, f.data);
    let head = f.command ^ f.address ^ f.data;
    let last = f.checksum;
    assert(xor_fold(s4) == head ^ last);
    assert((last == head) <==> (head ^ last == 0u8)) by (bit_vector);
}

} // verus!

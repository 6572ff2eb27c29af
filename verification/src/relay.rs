//! Relay numbers and the data byte that carries them.

use vstd::prelude::*;

verus! {

/// Relay numbers, each in 1..=8. Order and repetition do not matter.
pub type RelayIndex = Vec<u8>;

/// The relays of a card are numbered from 1 to 8.
pub open spec fn valid_relay(n: u8) -> bool {
    1 <= n <= 8
}

/// Every entry is a relay number.
pub open spec fn valid_relays(s: Seq<u8>) -> bool {
    forall|i: int| 0 <= i < s.len() ==> valid_relay(#[trigger] s[i])
}

/// The data byte with only the bit of relay `n` set: bit `n - 1`.
pub open spec fn relay_bit(n: u8) -> u8 {
    1u8 << ((n - 1) as u8)
}

/// Whether the bit of relay `n` is set in `mask`.
pub open spec fn mask_has(mask: u8, n: u8) -> bool {
    mask & relay_bit(n) != 0
}

/// The data byte for a list of relays: the OR of their bits.
pub open spec fn relay_mask(s: Seq<u8>) -> u8
    decreases s.len(),
{
    if s.len() == 0 {
        0u8
    } else {
        relay_mask(s.drop_last()) | relay_bit(s.last())
    }
}

proof fn lemma_or_relay_bit(m: u8, x: u8, n: u8)
    by (bit_vector)
    requires
        1 <= x <= 8,
        1 <= n <= 8,
    ensures
        mask_has(m | relay_bit(x), n) == (mask_has(m, n) || n == x),
        !mask_has(0u8, n),
{
}

/// The bit of relay `n` is set in the mask of `s` exactly when `n` occurs in
/// `s`. As a byte has no bits but those of relays 1 to 8, this fixes the mask.
pub proof fn lemma_relay_mask_bits(s: Seq<u8>)
    requires
        valid_relays(s),
    ensures
        forall|n: u8| valid_relay(n) ==> (#[trigger] mask_has(relay_mask(s), n) <==> s.contains(n)),
    decreases s.len(),
{
    if s.len() == 0 {
        assert forall|n: u8| valid_relay(n) implies (#[trigger] mask_has(relay_mask(s), n)
            <==> s.contains(n)) by {
            lemma_or_relay_bit(0, 1, n);
        }
    } else {
        let front = s.drop_last();
        let x = s.last();
        lemma_relay_mask_bits(front);
        assert forall|n: u8| valid_relay(n) implies (#[trigger] mask_has(relay_mask(s), n)
            <==> s.contains(n)) by {
            lemma_or_relay_bit(relay_mask(front), x, n);
            if s.contains(n) {
                let i = choose|i: int| 0 <= i < s.len() && s[i] == n;
                if i < s.len() - 1 {
                    assert(front[i] == n);
                }
            }
            if front.contains(n) {
                let i = choose|i: int| 0 <= i < front.len() && front[i] == n;
                assert(s[i] == n);
            }
            if n == x {
                assert(s[s.len() - 1] == n);
            }
        }
    }
}

proof fn lemma_mask_determined(a: u8, b: u8)
    requires
        forall|n: u8| valid_relay(n) ==> mask_has(a, n) == mask_has(b, n),
    ensures
        a == b,
{
    assert(valid_relay(1) && valid_relay(2) && valid_relay(3) && valid_relay(4));
    assert(valid_relay(5) && valid_relay(6) && valid_relay(7) && valid_relay(8));
    assert(a == b) by (bit_vector)
        requires
            mask_has(a, 1u8) == mask_has(b, 1u8),
            mask_has(a, 2u8) == mask_has(b, 2u8),
            mask_has(a, 3u8) == mask_has(b, 3u8),
            mask_has(a, 4u8) == mask_has(b, 4u8),
            mask_has(a, 5u8) == mask_has(b, 5u8),
            mask_has(a, 6u8) == mask_has(b, 6u8),
            mask_has(a, 7u8) == mask_has(b, 7u8),
            mask_has(a, 8u8) == mask_has(b, 8u8),
    ;
}

/// The data byte depends only on which relays are named: two lists that name
/// the same relays, in whatever order and however often, pack to one byte.
pub proof fn lemma_relay_mask_of_same_set(s: Seq<u8>, t: Seq<u8>)
    requires
        valid_relays(s),
        valid_relays(t),
        s.to_set() == t.to_set(),
    ensures
        relay_mask(s) == relay_mask(t),
{
    lemma_relay_mask_bits(s);
    lemma_relay_mask_bits(t);
    assert forall|n: u8| valid_relay(n) implies mask_has(relay_mask(s), n) == mask_has(
        relay_mask(t),
        n,
    ) by {
        assert(s.contains(n) == s.to_set().contains(n));
        assert(t.contains(n) == t.to_set().contains(n));
    }
    lemma_mask_determined(relay_mask(s), relay_mask(t));
}

/// Naming a relay once more changes nothing.
pub proof fn lemma_relay_mask_repeat(s: Seq<u8>, n: u8)
    requires
        valid_relays(s),
        s.contains(n),
    ensures
        relay_mask(s.push(n)) == relay_mask(s),
{
    let t = s.push(n);
    assert forall|i: int| 0 <= i < t.len() implies valid_relay(#[trigger] t[i]) by {
        if i < s.len() {
            assert(t[i] == s[i]);
        }
    }
    assert(t.to_set() =~= s.to_set()) by {
        assert forall|m: u8| t.contains(m) == s.contains(m) by {
            if t.contains(m) {
                let i = choose|i: int| 0 <= i < t.len() && t[i] == m;
                if i < s.len() {
                    assert(s[i] == m);
                }
            }
            if s.contains(m) {
                let i = choose|i: int| 0 <= i < s.len() && s[i] == m;
                assert(t[i] == m);
            }
        }
    }
    lemma_relay_mask_of_same_set(t, s);
}

} // verus!

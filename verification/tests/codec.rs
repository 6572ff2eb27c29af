use bytes::BytesMut;
use relay8x::relay::RelayIndex;
use relay8x::{Error, Frame, Relay8xCmdSet};

fn encoded(
    kind: Relay8xCmdSet,
    start_address: u8,
    card: Option<u8>,
    relays: Option<&RelayIndex>,
) -> Result<Vec<u8>, Error> {
    let mut bytes = BytesMut::new();
    kind.encode(&mut bytes, start_address, card, relays)?;
    Ok(bytes.to_vec())
}

#[test]
fn wire_codes() {
    assert_eq!(Relay8xCmdSet::Init.wire_code(), 1);
    assert_eq!(Relay8xCmdSet::SetOn.wire_code(), 6);
    assert_eq!(Relay8xCmdSet::Reset.wire_code(), 7);
    assert_eq!(Relay8xCmdSet::Toggle.wire_code(), 8);
}

#[test]
fn pack_sets_one_bit_per_relay() {
    for n in 1u8..=8 {
        assert_eq!(Relay8xCmdSet::relay_as_u8(&vec![n]), Ok(1u8 << (n - 1)));
    }
}

#[test]
fn pack_examples() {
    assert_eq!(Relay8xCmdSet::relay_as_u8(&vec![]), Ok(0));
    assert_eq!(Relay8xCmdSet::relay_as_u8(&vec![1, 3, 5]), Ok(0b0001_0101));
    assert_eq!(Relay8xCmdSet::relay_as_u8(&vec![8]), Ok(0b1000_0000));
    assert_eq!(Relay8xCmdSet::relay_as_u8(&vec![1, 2, 3, 4, 5, 6, 7, 8]), Ok(255));
}

#[test]
fn pack_matches_membership_for_every_subset() {
    for subset in 0u16..256 {
        let relays: Vec<u8> = (1u8..=8).filter(|n| subset & (1 << (n - 1)) != 0).collect();
        let mask = Relay8xCmdSet::relay_as_u8(&relays).unwrap();
        for n in 1u8..=8 {
            assert_eq!(mask & (1 << (n - 1)) != 0, relays.contains(&n));
        }
        assert_eq!(u16::from(mask), subset);
    }
}

#[test]
fn pack_ignores_order_and_repetition() {
    let plain = Relay8xCmdSet::relay_as_u8(&vec![2, 4, 7]);
    assert_eq!(plain, Ok(0b0100_1010));
    assert_eq!(Relay8xCmdSet::relay_as_u8(&vec![7, 2, 4]), plain);
    assert_eq!(Relay8xCmdSet::relay_as_u8(&vec![4, 4, 2, 7, 2, 7, 7]), plain);
}

#[test]
fn pack_refuses_numbers_outside_one_to_eight() {
    assert_eq!(Relay8xCmdSet::relay_as_u8(&vec![0]), Err(Error::InvalidRelayNumber));
    assert_eq!(Relay8xCmdSet::relay_as_u8(&vec![9]), Err(Error::InvalidRelayNumber));
    assert_eq!(Relay8xCmdSet::relay_as_u8(&vec![1, 2, 255]), Err(Error::InvalidRelayNumber));
    assert_eq!(Relay8xCmdSet::relay_as_u8(&vec![40, 1]), Err(Error::InvalidRelayNumber));
}

#[test]
fn addressed_counts_cards_from_one() {
    assert_eq!(Relay8xCmdSet::addressed(1, None), Ok(1));
    assert_eq!(Relay8xCmdSet::addressed(200, None), Ok(200));
    assert_eq!(Relay8xCmdSet::addressed(1, Some(1)), Ok(1));
    assert_eq!(Relay8xCmdSet::addressed(1, Some(2)), Ok(2));
    assert_eq!(Relay8xCmdSet::addressed(5, Some(4)), Ok(8));
    assert_eq!(Relay8xCmdSet::addressed(0, Some(1)), Ok(0));
}

#[test]
fn addressed_for_every_start_and_offset() {
    for start in 0u16..=255 {
        assert_eq!(Relay8xCmdSet::addressed(start as u8, None), Ok(start as u8));
        for k in 1u16..=255 {
            let got = Relay8xCmdSet::addressed(start as u8, Some(k as u8));
            if start + k - 1 <= 255 {
                assert_eq!(got, Ok((start + k - 1) as u8));
            } else {
                assert_eq!(got, Err(Error::InvalidCardOffset));
            }
        }
    }
}

#[test]
fn addressed_refuses_offset_zero() {
    assert_eq!(Relay8xCmdSet::addressed(1, Some(0)), Err(Error::InvalidCardOffset));
    assert_eq!(Relay8xCmdSet::addressed(0, Some(0)), Err(Error::InvalidCardOffset));
}

#[test]
fn addressed_refuses_what_lies_past_the_last_address() {
    assert_eq!(Relay8xCmdSet::addressed(255, Some(1)), Ok(255));
    assert_eq!(Relay8xCmdSet::addressed(255, Some(2)), Err(Error::InvalidCardOffset));
    assert_eq!(Relay8xCmdSet::addressed(1, Some(255)), Ok(255));
    assert_eq!(Relay8xCmdSet::addressed(2, Some(255)), Err(Error::InvalidCardOffset));
}

#[test]
fn checksummed_is_xor_of_all_bytes() {
    assert_eq!(Relay8xCmdSet::checksummed(&[]), 0);
    assert_eq!(Relay8xCmdSet::checksummed(&[6, 1, 21]), 18);
    assert_eq!(Relay8xCmdSet::checksummed(&[6, 2, 21]), 17);
    assert_eq!(Relay8xCmdSet::checksummed(&[6, 1, 21, 18]), 0);
    assert_eq!(Relay8xCmdSet::checksummed(&[0xff, 0x0f]), 0xf0);
}

#[test]
fn set_frames_for_two_cards() {
    let relays = vec![1, 3, 5];
    assert_eq!(
        encoded(Relay8xCmdSet::SetOn, 1, Some(1), Some(&relays)),
        Ok(vec![6, 1, 21, 18])
    );
    assert_eq!(
        encoded(Relay8xCmdSet::SetOn, 1, Some(2), Some(&relays)),
        Ok(vec![6, 2, 21, 17])
    );
}

#[test]
fn frame_is_the_same_as_encode() {
    let relays = vec![1, 3, 5];
    let frame = Relay8xCmdSet::SetOn.frame(1, Some(2), &relays).unwrap();
    assert_eq!(frame.to_bytes(), [6, 2, 21, 17]);
    assert_eq!(frame, Frame { command: 6, address: 2, data: 21, checksum: 17 });
    assert!(frame.is_well_formed());
}

#[test]
fn reset_and_toggle_frames() {
    let relays = vec![8];
    assert_eq!(
        encoded(Relay8xCmdSet::Reset, 3, Some(2), Some(&relays)),
        Ok(vec![7, 4, 128, 7 ^ 4 ^ 128])
    );
    assert_eq!(
        encoded(Relay8xCmdSet::Toggle, 3, None, Some(&relays)),
        Ok(vec![8, 3, 128, 8 ^ 3 ^ 128])
    );
}

#[test]
fn init_frame_goes_to_the_start_address() {
    assert_eq!(encoded(Relay8xCmdSet::Init, 5, None, None), Ok(vec![1, 5, 0, 4]));
    assert_eq!(encoded(Relay8xCmdSet::Init, 1, None, None), Ok(vec![1, 1, 0, 0]));
}

#[test]
fn init_takes_no_notice_of_card_and_relays() {
    let relays = vec![9, 0];
    assert_eq!(encoded(Relay8xCmdSet::Init, 5, Some(3), Some(&relays)), Ok(vec![1, 5, 0, 4]));
    assert_eq!(encoded(Relay8xCmdSet::Init, 5, Some(0), None), Ok(vec![1, 5, 0, 4]));
}

#[test]
fn empty_relay_list_gives_empty_mask() {
    let relays = vec![];
    assert_eq!(encoded(Relay8xCmdSet::SetOn, 1, Some(1), Some(&relays)), Ok(vec![6, 1, 0, 7]));
}

#[test]
fn every_encoded_frame_is_sealed() {
    let kinds = [Relay8xCmdSet::SetOn, Relay8xCmdSet::Reset, Relay8xCmdSet::Toggle];
    for kind in kinds {
        for start in [0u8, 1, 7, 100, 254] {
            for relays in [vec![], vec![1], vec![2, 8], vec![1, 2, 3, 4, 5, 6, 7, 8]] {
                let b = encoded(kind, start, Some(2), Some(&relays)).unwrap();
                assert_eq!(b.len(), 4);
                assert_eq!(b[0], kind.wire_code());
                assert_eq!(b[1], start + 1);
                assert_eq!(b[3], b[0] ^ b[1] ^ b[2]);
            }
        }
    }
}

#[test]
fn encode_refuses_relay_nine_and_writes_nothing() {
    let relays = vec![1, 9];
    let mut bytes = BytesMut::new();
    let r = Relay8xCmdSet::SetOn.encode(&mut bytes, 1, Some(1), Some(&relays));
    assert_eq!(r, Err(Error::InvalidRelayNumber));
    assert!(bytes.is_empty());
}

#[test]
fn encode_refuses_card_zero_and_writes_nothing() {
    let relays = vec![1];
    let mut bytes = BytesMut::new();
    let r = Relay8xCmdSet::Reset.encode(&mut bytes, 1, Some(0), Some(&relays));
    assert_eq!(r, Err(Error::InvalidCardOffset));
    assert!(bytes.is_empty());
}

#[test]
fn relay_error_comes_before_card_error() {
    let relays = vec![0];
    assert_eq!(
        encoded(Relay8xCmdSet::Toggle, 1, Some(0), Some(&relays)),
        Err(Error::InvalidRelayNumber)
    );
    assert_eq!(
        Relay8xCmdSet::Toggle.frame(1, Some(0), &relays),
        Err(Error::InvalidRelayNumber)
    );
}

#[test]
fn encode_appends_after_what_is_there() {
    let relays = vec![1, 3, 5];
    let mut bytes = BytesMut::new();
    bytes.extend_from_slice(&[0xaa, 0xbb]);
    Relay8xCmdSet::SetOn.encode(&mut bytes, 1, Some(1), Some(&relays)).unwrap();
    assert_eq!(&bytes[..], &[0xaa, 0xbb, 6, 1, 21, 18]);
    Relay8xCmdSet::SetOn.encode(&mut bytes, 1, Some(2), Some(&relays)).unwrap();
    assert_eq!(&bytes[..], &[0xaa, 0xbb, 6, 1, 21, 18, 6, 2, 21, 17]);
}

#[test]
fn refused_encode_keeps_earlier_content() {
    let relays = vec![9];
    let mut bytes = BytesMut::new();
    bytes.extend_from_slice(&[1, 2, 3]);
    let r = Relay8xCmdSet::SetOn.encode(&mut bytes, 1, Some(1), Some(&relays));
    assert_eq!(r, Err(Error::InvalidRelayNumber));
    assert_eq!(&bytes[..], &[1, 2, 3]);
}

#[test]
fn frame_new_seals_with_xor() {
    let f = Frame::new(6, 1, 21);
    assert_eq!(f, Frame { command: 6, address: 1, data: 21, checksum: 18 });
    for (c, a, d) in [(0u8, 0u8, 0u8), (255, 255, 255), (8, 17, 0x81), (1, 5, 0)] {
        let f = Frame::new(c, a, d);
        assert_eq!((f.command, f.address, f.data), (c, a, d));
        assert_eq!(f.checksum, c ^ a ^ d);
        assert!(f.is_well_formed());
    }
}

#[test]
fn frame_bytes_round_trip() {
    let f = Frame::from_bytes([254, 1, 11, 244]);
    assert_eq!(f, Frame { command: 254, address: 1, data: 11, checksum: 244 });
    assert_eq!(f.to_bytes(), [254, 1, 11, 244]);
    assert!(f.is_well_formed());
    let g = Frame::from_bytes([254, 1, 11, 0]);
    assert_eq!(g.to_bytes(), [254, 1, 11, 0]);
    assert!(!g.is_well_formed());
}

#[test]
fn frame_to_buffer_holds_the_frame_only() {
    let f = Frame::new(7, 2, 3);
    let b = f.to_buffer();
    assert_eq!(&b[..], &[7, 2, 3, 6]);
}

#[test]
fn frame_overwrite_replaces_content() {
    let mut b = BytesMut::new();
    b.extend_from_slice(&[9, 9, 9, 9, 9, 9]);
    Frame::new(8, 1, 255).overwrite(&mut b);
    assert_eq!(&b[..], &[8, 1, 255, 8 ^ 1 ^ 255]);
    Frame::new(6, 2, 1).overwrite(&mut b);
    assert_eq!(&b[..], &[6, 2, 1, 5]);
}

#[test]
fn frame_write_to_appends() {
    let mut b = BytesMut::new();
    Frame::new(6, 1, 21).write_to(&mut b);
    Frame::new(6, 2, 21).write_to(&mut b);
    assert_eq!(&b[..], &[6, 1, 21, 18, 6, 2, 21, 17]);
}

#[test]
fn decode_reads_exactly_one_frame() {
    let b = BytesMut::from(&[249u8, 1, 21, 237][..]);
    assert_eq!(
        Frame::decode(&b),
        Some(Frame { command: 249, address: 1, data: 21, checksum: 237 })
    );
    assert_eq!(Frame::decode(&BytesMut::new()), None);
    assert_eq!(Frame::decode(&BytesMut::from(&[1u8, 2, 3][..])), None);
    assert_eq!(Frame::decode(&BytesMut::from(&[1u8, 2, 3, 0, 5][..])), None);
}

#[test]
fn decode_gives_back_what_was_encoded() {
    let relays = vec![2, 6];
    let mut b = BytesMut::new();
    Relay8xCmdSet::Toggle.encode(&mut b, 10, Some(3), Some(&relays)).unwrap();
    let f = Frame::decode(&b).unwrap();
    assert_eq!(f, Relay8xCmdSet::Toggle.frame(10, Some(3), &relays).unwrap());
    assert_eq!(f.to_bytes(), [8, 12, 0b0010_0010, 8 ^ 12 ^ 0b0010_0010]);
}

use call::identity::{parse_peer_id, peer_identity};
use call::{PeerIdError, RoomError};
use std::num::IntErrorKind;

#[test]
fn names_are_decimal() {
    assert_eq!(peer_identity(0), "0");
    assert_eq!(peer_identity(907), "907");
    assert_eq!(peer_identity(u32::MAX), "4294967295");
    for peer_id in [0, 9, 10, 99, 100, 12345, u32::MAX - 1] {
        assert_eq!(peer_identity(peer_id), peer_id.to_string());
    }
}

#[test]
fn names_are_parsed_as_the_standard_library_does() {
    for name in [
        "", "+", "-", "0", "+0", "-0", "7", "+7", "++7", "7+", " 7", "7 ", "007", "4294967295",
        "4294967296", "99999999999999999999", "+4294967295", "12a", "a", "1_000", "\u{0663}",
        "000000000000000000000012", "4294967296x", "429496729x6", "42949672960x", "x4294967296",
        "+4294967296", "+x", "+-1",
    ] {
        match name.parse::<u32>() {
            Ok(peer_id) => assert_eq!(parse_peer_id(name), Ok(peer_id), "{}", name),
            Err(error) => {
                let expected = match error.kind() {
                    IntErrorKind::Empty => PeerIdError::Empty,
                    IntErrorKind::InvalidDigit => PeerIdError::InvalidDigit,
                    _ => PeerIdError::TooLarge,
                };
                assert_eq!(parse_peer_id(name), Err(expected), "{}", name);
                assert_eq!(
                    RoomError::InvalidPublisherId(expected).message(),
                    error.to_string()
                );
            }
        }
    }
}

#[test]
fn what_is_wrong_with_a_name() {
    assert_eq!(parse_peer_id(""), Err(PeerIdError::Empty));
    assert_eq!(parse_peer_id("+"), Err(PeerIdError::InvalidDigit));
    assert_eq!(parse_peer_id("-1"), Err(PeerIdError::InvalidDigit));
    assert_eq!(parse_peer_id("alice"), Err(PeerIdError::InvalidDigit));
    assert_eq!(parse_peer_id("4294967296"), Err(PeerIdError::TooLarge));
    assert_eq!(parse_peer_id("4294967296x"), Err(PeerIdError::TooLarge));
    assert_eq!(parse_peer_id("429496729x6"), Err(PeerIdError::InvalidDigit));
}

#[test]
fn a_name_names_its_peer() {
    for peer_id in [0, 1, 10, 4096, u32::MAX] {
        assert_eq!(parse_peer_id(&peer_identity(peer_id)), Ok(peer_id));
    }
}

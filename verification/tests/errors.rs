use call::{PeerIdError, RoomError};

#[test]
fn errors_have_a_message() {
    let service = RoomError::Service("connection reset".to_string());
    let messages = vec![
        (RoomError::Offline, "room is offline"),
        (RoomError::InvalidRoom, "invalid room"),
        (
            RoomError::LocationNotProvided,
            "participant location was not provided",
        ),
        (
            RoomError::InvalidPublisherId(PeerIdError::Empty),
            "cannot parse integer from empty string",
        ),
        (
            RoomError::InvalidPublisherId(PeerIdError::InvalidDigit),
            "invalid digit found in string",
        ),
        (
            RoomError::InvalidPublisherId(PeerIdError::TooLarge),
            "number too large to fit in target type",
        ),
        (
            RoomError::SubscribedToUnknownParticipant,
            "subscribed to track by unknown participant",
        ),
        (
            RoomError::UnsubscribedFromUnknownParticipant,
            "unsubscribed from track by unknown participant",
        ),
        (RoomError::ScreenAlreadyShared, "screen was already shared"),
        (RoomError::ScreenNotShared, "screen was not shared"),
        (
            RoomError::LiveKitNotInitialized,
            "live-kit was not initialized",
        ),
        (RoomError::NoDisplayFound, "no display found"),
        (RoomError::RoomDropped, "room was dropped"),
        (service, "connection reset"),
        (
            RoomError::CreationFailed(Box::new(RoomError::Service("busy".to_string()))),
            "room creation failed: busy",
        ),
    ];
    for (error, message) in messages {
        assert_eq!(error.message(), message);
    }
}

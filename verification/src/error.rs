//! Why an operation on a room is refused or fails.

use crate::identity::PeerIdError;
use vstd::prelude::*;
use vstd::string::*;

verus! {

/// Why an operation on a room is refused or fails.
#[derive(Debug, PartialEq, Eq)]
pub enum RoomError {
    /// The room has been left.
    Offline,
    /// The server's message lacks the room.
    InvalidRoom,
    /// A participant's location is missing from the server's message.
    LocationNotProvided,
    /// The publisher of a track is not named by a peer id.
    InvalidPublisherId(PeerIdError),
    /// A track was subscribed to whose publisher is not in the room.
    SubscribedToUnknownParticipant,
    /// A track was unsubscribed from whose publisher is not in the room.
    UnsubscribedFromUnknownParticipant,
    /// The screen is shared already, or is about to be.
    ScreenAlreadyShared,
    /// The screen is not shared.
    ScreenNotShared,
    /// The room has no connection to the media server.
    LiveKitNotInitialized,
    /// There is no display to share.
    NoDisplayFound,
    /// The room was dropped while work for it was under way.
    RoomDropped,
    /// A service reported this failure.
    Service(String),
    /// The first call out of a new room failed.
    CreationFailed(Box<RoomError>),
}

impl RoomError {
    /// The text that describes the error.
    pub open spec fn text(self) -> Seq<char>
        decreases self,
    {
        match self {
            RoomError::Offline => "room is offline"@,
            RoomError::InvalidRoom => "invalid room"@,
            RoomError::LocationNotProvided => "participant location was not provided"@,
            RoomError::InvalidPublisherId(error) => match error {
                PeerIdError::Empty => "cannot parse integer from empty string"@,
                PeerIdError::InvalidDigit => "invalid digit found in string"@,
                PeerIdError::TooLarge => "number too large to fit in target type"@,
            },
            RoomError::SubscribedToUnknownParticipant =>
                "subscribed to track by unknown participant"@,
            RoomError::UnsubscribedFromUnknownParticipant =>
                "unsubscribed from track by unknown participant"@,
            RoomError::ScreenAlreadyShared => "screen was already shared"@,
            RoomError::ScreenNotShared => "screen was not shared"@,
            RoomError::LiveKitNotInitialized => "live-kit was not initialized"@,
            RoomError::NoDisplayFound => "no display found"@,
            RoomError::RoomDropped => "room was dropped"@,
            RoomError::Service(message) => message@,
            RoomError::CreationFailed(cause) => "room creation failed: "@ + cause.text(),
        }
    }

    /// The text that describes the error.
    pub fn message(&self) -> (message: String)
        ensures
            message@ == self.text(),
        decreases self,
    {
        match self {
            RoomError::Offline => "room is offline".to_owned(),
            RoomError::InvalidRoom => "invalid room".to_owned(),
            RoomError::LocationNotProvided => "participant location was not provided".to_owned(),
            RoomError::InvalidPublisherId(error) => match error {
                PeerIdError::Empty => "cannot parse integer from empty string".to_owned(),
                PeerIdError::InvalidDigit => "invalid digit found in string".to_owned(),
                PeerIdError::TooLarge => "number too large to fit in target type".to_owned(),
            },
            RoomError::SubscribedToUnknownParticipant =>
                "subscribed to track by unknown participant".to_owned(),
            RoomError::UnsubscribedFromUnknownParticipant =>
                "unsubscribed from track by unknown participant".to_owned(),
            RoomError::ScreenAlreadyShared => "screen was already shared".to_owned(),
            RoomError::ScreenNotShared => "screen was not shared".to_owned(),
            RoomError::LiveKitNotInitialized => "live-kit was not initialized".to_owned(),
            RoomError::NoDisplayFound => "no display found".to_owned(),
            RoomError::RoomDropped => "room was dropped".to_owned(),
            RoomError::Service(message) => message.clone(),
            RoomError::CreationFailed(cause) => {
                let mut message = "room creation failed: ".to_owned();
                let cause = cause.message();
                message.append(cause.as_str());
                message
            },
        }
    }
}

} // verus!

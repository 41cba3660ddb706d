//! The state of a voice and screen-sharing room, as one of its participants
//! sees it.
//!
//! A [`Room`] never talks to a server itself. Each method updates the state,
//! returns the message to send, if any, and records in a [`Context`] what the
//! host is to do: notify observers, emit an [`Event`], connect or disconnect a
//! service. The host performs the outside work and reports the outcome through
//! the next method call.

pub mod connection;
pub mod error;
pub mod event;
pub mod identity;
pub mod laws;
pub mod media;
pub mod model;
pub mod participant;
pub mod project;
pub mod proto;
pub mod room;
pub mod tracks;

pub use crate::connection::{ConnectionMonitor, MonitorStep};
pub use crate::error::RoomError;
pub use crate::event::{Context, Effect, Event};
pub use crate::identity::{PeerId, PeerIdError};
pub use crate::media::{RemoteVideoTrackUpdate, ScreenTrack, SubscribedTrack};
pub use crate::participant::{
    LocalParticipant, ParticipantLocation, ProjectHandle, RemoteParticipant, RemoteVideoTrack, User,
};
pub use crate::project::{Project, Worktree};
pub use crate::room::{
    result_after_sending, IncomingCall, Room, RoomStatus, ShareProjectStep, UserFetch,
};
pub use crate::tracks::{Sid, TrackMap};

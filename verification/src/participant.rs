//! The people in a room, and what each of them shares.

use crate::error::RoomError;
use crate::proto;
use crate::proto::{projects_view, ParticipantProject, ProjectView};
use crate::tracks::TrackMap;
use vstd::prelude::*;

verus! {

/// A user of the collaboration server.
#[derive(Debug, PartialEq, Eq)]
pub struct User {
    pub id: u64,
    pub github_login: String,
}

/// The contents of a [`User`].
#[verifier::ext_equal]
pub struct UserView {
    pub id: u64,
    pub github_login: Seq<char>,
}

impl View for User {
    type V = UserView;

    open spec fn view(&self) -> UserView {
        UserView { id: self.id, github_login: self.github_login@ }
    }
}

impl Clone for User {
    fn clone(&self) -> (user: Self)
        ensures
            user == *self,
    {
        User { id: self.id, github_login: self.github_login.clone() }
    }
}

/// The contents of a list of users.
pub open spec fn users_view(users: Seq<User>) -> Seq<UserView> {
    users.map_values(|u: User| u@)
}

/// The ids of a list of users.
pub open spec fn user_ids(users: Seq<UserView>) -> Seq<u64> {
    users.map_values(|u: UserView| u.id)
}

/// Where a participant is working.
#[derive(Clone, Copy, Debug, PartialEq, Eq)]
pub enum ParticipantLocation {
    SharedProject { project_id: u64 },
    UnsharedProject,
    External,
}

impl ParticipantLocation {
    /// The location that the server's message states, if it states one.
    pub open spec fn stated(location: Option<proto::ParticipantLocation>) -> Option<Self> {
        match location {
            Some(proto::ParticipantLocation { variant: Some(variant) }) => Some(
                match variant {
                    proto::LocationVariant::SharedProject { id } =>
                        ParticipantLocation::SharedProject { project_id: id },
                    proto::LocationVariant::UnsharedProject => ParticipantLocation::UnsharedProject,
                    proto::LocationVariant::External => ParticipantLocation::External,
                },
            ),
            _ => None,
        }
    }

    /// The location that the server's message states.
    pub fn from_proto(location: Option<proto::ParticipantLocation>) -> (result: Result<
        Self,
        RoomError,
    >)
        ensures
            result == match Self::stated(location) {
                Some(location) => Ok::<Self, RoomError>(location),
                None => Err(RoomError::LocationNotProvided),
            },
    {
        match location {
            Some(location) => match location.variant {
                Some(proto::LocationVariant::SharedProject { id }) => Ok(
                    ParticipantLocation::SharedProject { project_id: id },
                ),
                Some(proto::LocationVariant::UnsharedProject) => Ok(
                    ParticipantLocation::UnsharedProject,
                ),
                Some(proto::LocationVariant::External) => Ok(ParticipantLocation::External),
                None => Err(RoomError::LocationNotProvided),
            },
            None => Err(RoomError::LocationNotProvided),
        }
    }

    /// The location at which a participant is shown: outside every project
    /// where the server's message states none.
    pub open spec fn shown(location: Option<proto::ParticipantLocation>) -> Self {
        match Self::stated(location) {
            Some(location) => location,
            None => ParticipantLocation::External,
        }
    }
}

/// A project window of this process.
#[derive(Clone, Copy, Debug, PartialEq, Eq, Structural)]
pub struct ProjectHandle(pub usize);

/// The participant whose room this is.
#[derive(Debug, PartialEq, Eq)]
pub struct LocalParticipant {
    pub projects: Vec<ParticipantProject>,
    pub active_project: Option<ProjectHandle>,
}

/// The contents of a [`LocalParticipant`].
#[verifier::ext_equal]
pub struct LocalParticipantView {
    pub projects: Seq<ProjectView>,
    pub active_project: Option<ProjectHandle>,
}

impl View for LocalParticipant {
    type V = LocalParticipantView;

    open spec fn view(&self) -> LocalParticipantView {
        LocalParticipantView {
            projects: projects_view(self.projects@),
            active_project: self.active_project,
        }
    }
}

impl Default for LocalParticipant {
    fn default() -> (participant: Self)
        ensures
            participant@ == (LocalParticipantView {
                projects: Seq::empty(),
                active_project: None,
            }),
    {
        let participant = LocalParticipant { projects: Vec::new(), active_project: None };
        assert(participant@.projects =~= Seq::empty());
        participant
    }
}

/// A video track that another participant publishes.
///
/// `F` is a picture of the track, and `T` is what keeps the subscription alive.
#[derive(Debug, PartialEq, Eq)]
pub struct RemoteVideoTrack<F, T> {
    pub frame: Option<F>,
    pub live_kit_track: T,
}

/// Another participant of the room.
#[derive(Debug)]
#[verifier::reject_recursive_types(F)]
#[verifier::reject_recursive_types(T)]
pub struct RemoteParticipant<F, T> {
    pub user: User,
    pub projects: Vec<ParticipantProject>,
    pub location: ParticipantLocation,
    pub tracks: TrackMap<RemoteVideoTrack<F, T>>,
}

/// The contents of a [`RemoteParticipant`].
#[verifier::ext_equal]
#[verifier::reject_recursive_types(F)]
#[verifier::reject_recursive_types(T)]
pub struct RemoteParticipantView<F, T> {
    pub user: UserView,
    pub projects: Seq<ProjectView>,
    pub location: ParticipantLocation,
    pub tracks: Map<Seq<char>, RemoteVideoTrack<F, T>>,
}

impl<F, T> View for RemoteParticipant<F, T> {
    type V = RemoteParticipantView<F, T>;

    open spec fn view(&self) -> RemoteParticipantView<F, T> {
        RemoteParticipantView {
            user: self.user@,
            projects: projects_view(self.projects@),
            location: self.location,
            tracks: self.tracks@,
        }
    }
}

} // verus!

//! The messages exchanged with the collaboration server.

use crate::identity::PeerId;
use vstd::prelude::*;

verus! {

/// The contents of a list of strings.
pub open spec fn strings_view(strings: Seq<String>) -> Seq<Seq<char>> {
    strings.map_values(|s: String| s@)
}

/// A project that a participant shares with the room.
#[derive(Debug, PartialEq, Eq)]
pub struct ParticipantProject {
    pub id: u64,
    pub worktree_root_names: Vec<String>,
}

/// The contents of a [`ParticipantProject`].
#[verifier::ext_equal]
pub struct ProjectView {
    pub id: u64,
    pub worktree_root_names: Seq<Seq<char>>,
}

impl View for ParticipantProject {
    type V = ProjectView;

    open spec fn view(&self) -> ProjectView {
        ProjectView { id: self.id, worktree_root_names: strings_view(self.worktree_root_names@) }
    }
}

/// The contents of a list of projects.
pub open spec fn projects_view(projects: Seq<ParticipantProject>) -> Seq<ProjectView> {
    projects.map_values(|p: ParticipantProject| p@)
}

/// The ids of a list of projects.
pub open spec fn project_ids(projects: Seq<ProjectView>) -> Seq<u64> {
    projects.map_values(|p: ProjectView| p.id)
}

/// Where a participant is working.
#[derive(Clone, Copy, Debug, PartialEq, Eq)]
pub enum LocationVariant {
    SharedProject { id: u64 },
    UnsharedProject,
    External,
}

/// The location of a participant, as the server reports it.
#[derive(Clone, Copy, Debug, PartialEq, Eq)]
pub struct ParticipantLocation {
    pub variant: Option<LocationVariant>,
}

/// A participant of a room, as the server reports it.
#[derive(Debug, PartialEq, Eq)]
pub struct Participant {
    pub user_id: u64,
    pub peer_id: PeerId,
    pub projects: Vec<ParticipantProject>,
    pub location: Option<ParticipantLocation>,
}

/// The contents of a [`Participant`].
#[verifier::ext_equal]
pub struct ParticipantView {
    pub user_id: u64,
    pub peer_id: PeerId,
    pub projects: Seq<ProjectView>,
    pub location: Option<ParticipantLocation>,
}

impl View for Participant {
    type V = ParticipantView;

    open spec fn view(&self) -> ParticipantView {
        ParticipantView {
            user_id: self.user_id,
            peer_id: self.peer_id,
            projects: projects_view(self.projects@),
            location: self.location,
        }
    }
}

/// The contents of a list of participants.
pub open spec fn participants_view(participants: Seq<Participant>) -> Seq<ParticipantView> {
    participants.map_values(|p: Participant| p@)
}

/// The user ids of a list of participants.
pub open spec fn participant_user_ids(participants: Seq<ParticipantView>) -> Seq<u64> {
    participants.map_values(|p: ParticipantView| p.user_id)
}

/// A room, as the server reports it.
#[derive(Debug, PartialEq, Eq)]
pub struct Room {
    pub id: u64,
    pub participants: Vec<Participant>,
    pub pending_participant_user_ids: Vec<u64>,
}

/// Where and with which token to join the media server.
#[derive(Debug, PartialEq, Eq)]
pub struct LiveKitConnectionInfo {
    pub server_url: String,
    pub token: String,
}

/// The answer to [`CreateRoom`].
#[derive(Debug, PartialEq, Eq)]
pub struct CreateRoomResponse {
    pub room: Option<Room>,
    pub live_kit_connection_info: Option<LiveKitConnectionInfo>,
}

/// The answer to [`JoinRoom`].
#[derive(Debug, PartialEq, Eq)]
pub struct JoinRoomResponse {
    pub room: Option<Room>,
    pub live_kit_connection_info: Option<LiveKitConnectionInfo>,
}

/// A notice that a room has changed.
#[derive(Debug, PartialEq, Eq)]
pub struct RoomUpdated {
    pub room: Option<Room>,
}

/// A request for a new room.
#[derive(Clone, Copy, Debug, PartialEq, Eq)]
pub struct CreateRoom {}

/// A request to enter a room.
#[derive(Clone, Copy, Debug, PartialEq, Eq)]
pub struct JoinRoom {
    pub id: u64,
}

/// A request to call a user into a room.
#[derive(Clone, Copy, Debug, PartialEq, Eq)]
pub struct Call {
    pub room_id: u64,
    pub recipient_user_id: u64,
    pub initial_project_id: Option<u64>,
}

/// A folder of a shared project.
#[derive(Debug, PartialEq, Eq)]
pub struct WorktreeMetadata {
    pub id: u64,
    pub root_name: String,
    pub visible: bool,
    pub abs_path: Vec<u8>,
}

/// The contents of a [`WorktreeMetadata`].
#[verifier::ext_equal]
pub struct WorktreeMetadataView {
    pub id: u64,
    pub root_name: Seq<char>,
    pub visible: bool,
    pub abs_path: Seq<u8>,
}

impl View for WorktreeMetadata {
    type V = WorktreeMetadataView;

    open spec fn view(&self) -> WorktreeMetadataView {
        WorktreeMetadataView {
            id: self.id,
            root_name: self.root_name@,
            visible: self.visible,
            abs_path: self.abs_path@,
        }
    }
}

/// A request to share a project with a room.
#[derive(Debug, PartialEq, Eq)]
pub struct ShareProject {
    pub room_id: u64,
    pub worktrees: Vec<WorktreeMetadata>,
}

/// The contents of a [`ShareProject`].
#[verifier::ext_equal]
pub struct ShareProjectView {
    pub room_id: u64,
    pub worktrees: Seq<WorktreeMetadataView>,
}

impl View for ShareProject {
    type V = ShareProjectView;

    open spec fn view(&self) -> ShareProjectView {
        ShareProjectView {
            room_id: self.room_id,
            worktrees: self.worktrees@.map_values(|w: WorktreeMetadata| w@),
        }
    }
}

/// The answer to [`ShareProject`].
#[derive(Clone, Copy, Debug, PartialEq, Eq)]
pub struct ShareProjectResponse {
    pub project_id: u64,
}

/// A request to tell the room where the local participant is working.
#[derive(Clone, Copy, Debug, PartialEq, Eq)]
pub struct UpdateParticipantLocation {
    pub room_id: u64,
    pub location: Option<ParticipantLocation>,
}

} // verus!

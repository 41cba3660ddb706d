//! The projects of the local participant.

use super::Room;
use crate::error::RoomError;
use crate::event::{Context, EffectView};
use crate::project::Project;
use crate::proto;
use vstd::prelude::*;

verus! {

/// How a project is shared.
#[derive(Debug, PartialEq, Eq)]
pub enum ShareProjectStep {
    /// It has been shared under this id.
    AlreadyShared { project_id: u64 },
    /// The server is to be asked.
    Request(proto::ShareProject),
}

impl<F, T, P> Room<F, T, P> {
    /// Shares a project with the room.
    ///
    /// Where the server is asked, the host gives the project the id in the answer,
    /// and reports that to [`Room::project_shared`]. How it ends is said by
    /// [`Room::sharing_result`].
    pub fn share_project(&self, project: &Project) -> (step: ShareProjectStep)
        ensures
            match (project.remote_id, step) {
                (Some(id), ShareProjectStep::AlreadyShared { project_id }) => project_id == id,
                (None, ShareProjectStep::Request(request)) => request@ == project.share_request(
                    self@.id,
                ),
                _ => false,
            },
    {
        match project.remote_id {
            Some(project_id) => ShareProjectStep::AlreadyShared { project_id },
            None => ShareProjectStep::Request(project.to_share_request(self.id)),
        }
    }

    /// Takes note that a project is shared now. Where the local participant works
    /// on it, the message that tells the room so is returned.
    pub fn project_shared(&mut self, project: &Project, cx: &mut Context<P>) -> (result: Result<
        Option<proto::UpdateParticipantLocation>,
        RoomError,
    >)
        ensures
            old(self)@.project_shared(*project).happened(
                result,
                final(self)@,
                old(cx)@,
                final(cx)@,
            ),
    {
        let active = match self.local_participant.active_project {
            Some(handle) => handle == project.handle,
            None => false,
        };
        // If the user's location is in this project, it changes from UnsharedProject to
        // SharedProject.
        if active {
            match self.set_location(Some(project), cx) {
                Ok(message) => Ok(Some(message)),
                Err(error) => Err(error),
            }
        } else {
            assert(cx@ =~= old(cx)@ + Seq::empty());
            Ok(None)
        }
    }

    /// How sharing a project ends once the server has answered and the room has been
    /// told, if it is to be told: with the id of the project, unless one of the two
    /// failed.
    pub fn sharing_result(
        response: Result<proto::ShareProjectResponse, RoomError>,
        told: Result<(), RoomError>,
    ) -> (result: Result<u64, RoomError>)
        ensures
            result == match response {
                Err(error) => Err::<u64, RoomError>(error),
                Ok(response) => match told {
                    Err(error) => Err(error),
                    Ok(()) => Ok(response.project_id),
                },
            },
    {
        match response {
            Err(error) => Err(error),
            Ok(response) => match told {
                Err(error) => Err(error),
                Ok(()) => Ok(response.project_id),
            },
        }
    }

    /// Notes on which project the local participant works, and returns the message
    /// that tells the room so.
    pub fn set_location(&mut self, project: Option<&Project>, cx: &mut Context<P>) -> (result:
        Result<proto::UpdateParticipantLocation, RoomError>)
        ensures
            old(self)@.set_location(
                match project {
                    Some(project) => Some(*project),
                    None => None,
                },
            ).happened(result, final(self)@, old(cx)@, final(cx)@),
    {
        if self.status.is_offline() {
            assert(cx@ =~= old(cx)@ + Seq::empty());
            return Err(RoomError::Offline);
        }
        let variant = match project {
            Some(project) => {
                self.local_participant.active_project = Some(project.handle);
                match project.remote_id {
                    Some(id) => proto::LocationVariant::SharedProject { id },
                    None => proto::LocationVariant::UnsharedProject,
                }
            },
            None => {
                self.local_participant.active_project = None;
                proto::LocationVariant::External
            },
        };
        cx.notify();
        assert(cx@ =~= old(cx)@ + seq![EffectView::Notify]);
        Ok(
            proto::UpdateParticipantLocation {
                room_id: self.id,
                location: Some(proto::ParticipantLocation { variant: Some(variant) }),
            },
        )
    }
}

} // verus!

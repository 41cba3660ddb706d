//! Opening a room, and calling users into it.

use super::{Room, RoomStatus, UserFetch};
use crate::error::RoomError;
use crate::event::{Context, Effect, EffectView};
use crate::media::{LiveKitRoom, ScreenTrack};
use crate::model::RoomView;
use crate::participant::LocalParticipant;
use crate::proto;
use crate::proto::participants_view;
use std::collections::{BTreeMap, HashSet};
use vstd::prelude::*;

verus! {

/// A call into a room that has come in.
#[derive(Clone, Copy, Debug, PartialEq, Eq)]
pub struct IncomingCall {
    pub room_id: u64,
}

impl IncomingCall {
    /// The request to enter the room.
    pub fn join_request(&self) -> (request: proto::JoinRoom)
        ensures
            request == (proto::JoinRoom { id: self.room_id }),
    {
        proto::JoinRoom { id: self.room_id }
    }
}

/// How it ends when a message is sent before `result` is returned: that the
/// message cannot be sent takes the place of the result.
pub fn result_after_sending(sent: Result<(), RoomError>, result: Result<(), RoomError>) -> (outcome:
    Result<(), RoomError>)
    ensures
        outcome == match sent {
            Ok(()) => result,
            Err(error) => Err(error),
        },
{
    match sent {
        Ok(()) => result,
        Err(error) => Err(error),
    }
}

impl<F, T, P> Room<F, T, P> {
    /// A new room.
    pub fn new(
        id: u64,
        live_kit_connection_info: Option<proto::LiveKitConnectionInfo>,
        cx: &mut Context<P>,
    ) -> (room: Self)
        ensures
            RoomView::<F, T, P>::opened(id, live_kit_connection_info).happened(
                (),
                room@,
                old(cx)@,
                final(cx)@,
            ),
    {
        cx.push(Effect::WatchConnection);
        let live_kit = match live_kit_connection_info {
            Some(info) => {
                cx.push(Effect::ConnectLiveKit { server_url: info.server_url, token: info.token });
                Some(LiveKitRoom { screen_track: ScreenTrack::default(), next_publish_id: 0 })
            },
            None => None,
        };
        cx.push(Effect::Subscribe);
        let room = Room {
            id,
            live_kit,
            status: RoomStatus::Online,
            participant_user_ids: HashSet::new(),
            local_participant: LocalParticipant::default(),
            remote_participants: BTreeMap::new(),
            pending_participants: Vec::new(),
            pending_call_count: 0,
            subscribed: true,
            leave_when_empty: false,
            pending_room_update: None,
        };
        let ghost opened = RoomView::<F, T, P>::opened(id, live_kit_connection_info);
        assert(room@ =~= opened.room);
        assert(cx@ =~= old(cx)@ + opened.effects);
        room
    }

    /// Opens the room that the server has created.
    ///
    /// The host shares the project that the first call is about, if there is one,
    /// and then makes the call with [`Room::first_call`].
    pub fn create(
        response: Result<proto::CreateRoomResponse, RoomError>,
        cx: &mut Context<P>,
    ) -> (result: Result<Self, RoomError>)
        ensures
            match response {
                Err(error) => result == Err::<Self, RoomError>(error) && final(cx)@ == old(cx)@,
                Ok(response) => match response.room {
                    None => result == Err::<Self, RoomError>(RoomError::InvalidRoom)
                        && final(cx)@ == old(cx)@,
                    Some(message) => result matches Ok(room) && RoomView::<F, T, P>::opened(
                        message.id,
                        response.live_kit_connection_info,
                    ).happened((), room@, old(cx)@, final(cx)@),
                },
            },
    {
        match response {
            Ok(response) => match response.room {
                Some(room) => Ok(Room::new(room.id, response.live_kit_connection_info, cx)),
                None => Err(RoomError::InvalidRoom),
            },
            Err(error) => Err(error),
        }
    }

    /// Calls the first user into a new room, after the project that the call is
    /// about has been shared, if there is one. From now on the room is left when
    /// nobody else is in it.
    pub fn first_call(
        &mut self,
        recipient_user_id: u64,
        shared_project: Option<Result<u64, RoomError>>,
        cx: &mut Context<P>,
    ) -> (result: Result<proto::Call, RoomError>)
        requires
            old(self)@.status is Online && !(shared_project matches Some(Err(_)))
                ==> old(self)@.pending_call_count < usize::MAX,
        ensures
            old(self)@.first_call(recipient_user_id, shared_project).happened(
                result,
                final(self)@,
                old(cx)@,
                final(cx)@,
            ),
    {
        let initial_project_id = match shared_project {
            Some(Ok(project_id)) => Some(project_id),
            Some(Err(error)) => {
                assert(cx@ =~= old(cx)@ + Seq::empty());
                return Err(error);
            },
            None => None,
        };
        self.leave_when_empty = true;
        match self.call(recipient_user_id, initial_project_id, cx) {
            Ok(call) => Ok(call),
            Err(error) => Err(RoomError::CreationFailed(Box::new(error))),
        }
    }

    /// How the creation of a room ends once the first call has been answered.
    pub fn creation_result(answer: Result<(), RoomError>) -> (result: Result<(), RoomError>)
        ensures
            result == match answer {
                Ok(()) => Ok::<(), RoomError>(()),
                Err(error) => Err(RoomError::CreationFailed(Box::new(error))),
            },
    {
        match answer {
            Ok(()) => Ok(()),
            Err(error) => Err(RoomError::CreationFailed(Box::new(error))),
        }
    }

    /// Opens the room of a call that was accepted, and announces who is in it. The
    /// room is left when nobody else is in it.
    pub fn join(
        call: &IncomingCall,
        response: Result<proto::JoinRoomResponse, RoomError>,
        local_user_id: Option<u64>,
        cx: &mut Context<P>,
    ) -> (result: Result<(Self, UserFetch), RoomError>)
        ensures
            match response {
                Err(error) => result == Err::<(Self, UserFetch), RoomError>(error) && final(cx)@
                    == old(cx)@,
                Ok(response) => match response.room {
                    None => result == Err::<(Self, UserFetch), RoomError>(RoomError::InvalidRoom)
                        && final(cx)@ == old(cx)@,
                    Some(message) => {
                        let opened = RoomView::<F, T, P>::opened(
                            call.room_id,
                            response.live_kit_connection_info,
                        );
                        &&& result matches Ok((room, fetch))
                        &&& opened.room.leaving_when_empty().apply_room_update(
                            participants_view(message.participants@),
                            message.pending_participant_user_ids@,
                            local_user_id,
                        ).happened(fetch@, room@, old(cx)@ + opened.effects, final(cx)@)
                    },
                },
            },
    {
        match response {
            Ok(response) => match response.room {
                Some(message) => {
                    let mut room = Room::new(call.room_id, response.live_kit_connection_info, cx);
                    room.leave_when_empty = true;
                    let fetch = room.apply_room_update(message, local_user_id, cx);
                    Ok((room, fetch))
                },
                None => Err(RoomError::InvalidRoom),
            },
            Err(error) => Err(error),
        }
    }

    /// What is left to do when the room is dropped: one that has not been left is
    /// left.
    pub fn release(&self, cx: &mut Context<P>)
        ensures
            self@.release().happened((), self@, old(cx)@, final(cx)@),
    {
        if self.status.is_online() {
            cx.push(Effect::LeaveRoom { room_id: self.id });
        }
        assert(cx@ =~= old(cx)@ + self@.release().effects);
    }

    /// Calls a user into the room.
    ///
    /// The host sends the request that is returned, and reports the answer to
    /// [`Room::call_finished`].
    pub fn call(
        &mut self,
        recipient_user_id: u64,
        initial_project_id: Option<u64>,
        cx: &mut Context<P>,
    ) -> (result: Result<proto::Call, RoomError>)
        requires
            old(self)@.status is Online ==> old(self)@.pending_call_count < usize::MAX,
        ensures
            old(self)@.call(recipient_user_id, initial_project_id).happened(
                result,
                final(self)@,
                old(cx)@,
                final(cx)@,
            ),
    {
        if self.status.is_offline() {
            assert(cx@ =~= old(cx)@ + Seq::empty());
            return Err(RoomError::Offline);
        }
        cx.notify();
        assert(cx@ =~= old(cx)@ + seq![EffectView::Notify]);
        self.pending_call_count += 1;
        Ok(proto::Call { room_id: self.id, recipient_user_id, initial_project_id })
    }

    /// Takes note of the answer to a call, which may leave the room empty.
    pub fn call_finished(
        &mut self,
        answer: Result<(), RoomError>,
        cx: &mut Context<P>,
    ) -> (result: Result<(), RoomError>)
        requires
            old(self)@.pending_call_count > 0,
        ensures
            old(self)@.call_finished(answer).happened(
                result,
                final(self)@,
                old(cx)@,
                final(cx)@,
            ),
    {
        self.pending_call_count -= 1;
        if self.should_leave() {
            match self.leave(cx) {
                Ok(()) => answer,
                Err(error) => Err(error),
            }
        } else {
            assert(cx@ =~= old(cx)@ + Seq::empty());
            answer
        }
    }

    /// The number of calls that have not been answered.
    pub fn pending_call_count(&self) -> (count: usize)
        ensures
            count == self@.pending_call_count,
    {
        self.pending_call_count
    }
}

} // verus!

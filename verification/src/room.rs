//! A room and the operations on it.

use crate::error::RoomError;
use crate::event::{Context, Effect, Event};
use crate::identity::PeerId;
use crate::media::LiveKitRoom;
use crate::model::{PendingUpdateView, RoomView};
use crate::participant::{
    users_view, LocalParticipant, RemoteParticipant, RemoteParticipantView, User,
};
use crate::proto;
use crate::proto::participants_view;
use std::collections::{BTreeMap, HashSet};
use vstd::prelude::*;

use self::update::peer_ids;

mod lifecycle;
mod project;
mod screen;
mod update;
mod video;

pub use self::lifecycle::{result_after_sending, IncomingCall};
pub use self::project::ShareProjectStep;
pub use self::update::{
    ascending_keys, fetch_result_view, fetched_view, queries_view, UserFetch,
};

verus! {

/// Whether the local participant is in the room.
#[derive(Copy, Clone, Debug, PartialEq, Eq, Structural)]
pub enum RoomStatus {
    Online,
    Offline,
}

impl RoomStatus {
    pub fn is_offline(&self) -> (offline: bool)
        ensures
            offline == (self is Offline),
    {
        matches!(self, RoomStatus::Offline)
    }

    pub fn is_online(&self) -> (online: bool)
        ensures
            online == (self is Online),
    {
        matches!(self, RoomStatus::Online)
    }
}

/// An update of the room that waits for the users in it to be fetched.
#[derive(Debug, PartialEq, Eq)]
struct PendingRoomUpdate {
    local_participant: Option<proto::Participant>,
    participants: Vec<proto::Participant>,
}

impl View for PendingRoomUpdate {
    type V = PendingUpdateView;

    closed spec fn view(&self) -> PendingUpdateView {
        PendingUpdateView {
            local_participant: match self.local_participant {
                Some(participant) => Some(participant@),
                None => None,
            },
            participants: participants_view(self.participants@),
        }
    }
}

/// The contents of a map of participants.
pub open spec fn remote_view<F, T>(participants: Map<PeerId, RemoteParticipant<F, T>>) -> Map<
    PeerId,
    RemoteParticipantView<F, T>,
> {
    participants.map_values(|p: RemoteParticipant<F, T>| p@)
}

/// A room, as one of its participants sees it.
///
/// `F` is a picture of a video track, `T` is what keeps the subscription to a
/// track alive, and `P` is a track that the local participant has published.
#[derive(Debug)]
#[verifier::reject_recursive_types(F)]
#[verifier::reject_recursive_types(T)]
#[verifier::reject_recursive_types(P)]
pub struct Room<F, T, P> {
    id: u64,
    live_kit: Option<LiveKitRoom<P>>,
    status: RoomStatus,
    local_participant: LocalParticipant,
    remote_participants: BTreeMap<PeerId, RemoteParticipant<F, T>>,
    pending_participants: Vec<User>,
    participant_user_ids: HashSet<u64>,
    pending_call_count: usize,
    leave_when_empty: bool,
    subscribed: bool,
    pending_room_update: Option<PendingRoomUpdate>,
}

impl<F, T, P> View for Room<F, T, P> {
    type V = RoomView<F, T, P>;

    closed spec fn view(&self) -> RoomView<F, T, P> {
        RoomView {
            id: self.id,
            live_kit: self.live_kit,
            status: self.status,
            local_participant: self.local_participant@,
            remote_participants: remote_view(self.remote_participants@),
            pending_participants: users_view(self.pending_participants@),
            participant_user_ids: self.participant_user_ids@,
            pending_call_count: self.pending_call_count,
            leave_when_empty: self.leave_when_empty,
            subscribed: self.subscribed,
            pending_room_update: match self.pending_room_update {
                Some(update) => Some(update@),
                None => None,
            },
        }
    }
}

impl<F, T, P> Room<F, T, P> {
    /// Whether the room is to be left because nobody else is in it.
    pub fn should_leave(&self) -> (leave: bool)
        ensures
            leave == self@.should_leave(),
    {
        proof {
            assert(self@.remote_participants.dom() =~= self.remote_participants@.dom());
        }
        self.leave_when_empty && self.pending_room_update.is_none()
            && self.pending_participants.is_empty() && self.remote_participants.is_empty()
            && self.pending_call_count == 0
    }

    /// Leaves the room.
    pub fn leave(&mut self, cx: &mut Context<P>) -> (result: Result<(), RoomError>)
        ensures
            old(self)@.leave().happened(result, final(self)@, old(cx)@, final(cx)@),
    {
        if self.status.is_offline() {
            assert(cx@ =~= old(cx)@ + Seq::empty());
            return Err(RoomError::Offline);
        }
        cx.notify();
        cx.emit(Event::Left);
        self.status = RoomStatus::Offline;
        self.remote_participants.clear();
        self.pending_participants.clear();
        self.participant_user_ids.clear();
        self.subscribed = false;
        cx.push(Effect::Unsubscribe);
        if self.live_kit.take().is_some() {
            cx.push(Effect::DisconnectLiveKit);
        }
        cx.push(Effect::LeaveRoom { room_id: self.id });
        proof {
            assert(self@ =~= old(self)@.vacated());
            assert(cx@ =~= old(cx)@ + old(self)@.farewell());
        }
        Ok(())
    }

    /// The id of the room.
    pub fn id(&self) -> (id: u64)
        ensures
            id == self@.id,
    {
        self.id
    }

    /// Whether the local participant is in the room.
    pub fn status(&self) -> (status: RoomStatus)
        ensures
            status == self@.status,
    {
        self.status
    }

    /// Whether the server's updates of the room are to be reported.
    pub fn is_subscribed(&self) -> (subscribed: bool)
        ensures
            subscribed == self@.subscribed,
    {
        self.subscribed
    }

    /// Whether there is a connection to the media server.
    pub fn has_live_kit(&self) -> (connected: bool)
        ensures
            connected == (self@.live_kit is Some),
    {
        self.live_kit.is_some()
    }

    /// The participant whose room this is.
    pub fn local_participant(&self) -> (participant: &LocalParticipant)
        ensures
            participant@ == self@.local_participant,
    {
        &self.local_participant
    }

    /// The other participants, by peer id.
    pub fn remote_participants(&self) -> (participants: &BTreeMap<PeerId, RemoteParticipant<F, T>>)
        ensures
            remote_view(participants@) == self@.remote_participants,
    {
        &self.remote_participants
    }

    /// The users who are being called.
    pub fn pending_participants(&self) -> (users: &[User])
        ensures
            users_view(users@) == self@.pending_participants,
    {
        self.pending_participants.as_slice()
    }

    /// Whether the user is in the room, or is being called.
    pub fn contains_participant(&self, user_id: u64) -> (contains: bool)
        ensures
            contains == self@.participant_user_ids.contains(user_id),
    {
        self.participant_user_ids.contains(&user_id)
    }

    /// Whether everybody in the room is counted, once, among its users.
    pub fn check_invariants(&self) -> (consistent: bool)
        ensures
            consistent == self@.consistent(),
    {
        let ghost entries = self.remote_participants@;
        let peer_ids = peer_ids(&self.remote_participants);
        let mut i: usize = 0;
        while i < peer_ids.len()
            invariant
                i <= peer_ids@.len(),
                entries == self.remote_participants@,
                ascending_keys(peer_ids@, entries),
                forall|j: int|
                    0 <= j < i ==> self.participant_user_ids@.contains(
                        entries[#[trigger] peer_ids@[j]].user.id,
                    ),
            decreases peer_ids@.len() - i,
        {
            if let Some(participant) = self.remote_participants.get(&peer_ids[i]) {
                if !self.participant_user_ids.contains(&participant.user.id) {
                    proof {
                        let peer_id = peer_ids@[i as int];
                        assert(self@.remote_participants.contains_key(peer_id));
                        assert(self@.remote_participants[peer_id].user.id == participant.user.id);
                    }
                    return false;
                }
            }
            i += 1;
        }
        assert forall|peer_id: PeerId| #[trigger]
            self@.remote_participants.contains_key(
                peer_id,
            ) implies self@.participant_user_ids.contains(
            self@.remote_participants[peer_id].user.id,
        ) by {
            assert(entries.contains_key(peer_id));
            let j = choose|j: int| 0 <= j < peer_ids@.len() && peer_ids@[j] == peer_id;
            assert(self.participant_user_ids@.contains(entries[peer_ids@[j]].user.id));
        }
        let mut k: usize = 0;
        while k < self.pending_participants.len()
            invariant
                k <= self.pending_participants@.len(),
                forall|j: int|
                    0 <= j < k ==> self.participant_user_ids@.contains(
                        (#[trigger] self.pending_participants@[j]).id,
                    ),
            decreases self.pending_participants@.len() - k,
        {
            if !self.participant_user_ids.contains(&self.pending_participants[k].id) {
                proof {
                    assert(self@.pending_participants[k as int].id
                        == self.pending_participants@[k as int].id);
                }
                return false;
            }
            k += 1;
        }
        assert(self@.remote_participants.dom() =~= entries.dom());
        self.participant_user_ids.len() as u128 == self.remote_participants.len() as u128
            + self.pending_participants.len() as u128
    }
}

} // verus!

//! What the state of a room is, and what each operation does to it.

use crate::error::RoomError;
use crate::event::{EffectView, EventView};
use crate::identity::{decimal_digits, peer_id_named, PeerId};
use crate::media::{
    LiveKitRoom, RemoteVideoTrackUpdateView, ScreenTrack, SubscribedTrackView,
};
use crate::participant::{
    user_ids, LocalParticipantView, ParticipantLocation, RemoteParticipantView, RemoteVideoTrack,
    UserView,
};
use crate::project::Project;
use crate::proto;
use crate::proto::{
    participant_user_ids, participants_view, project_ids, ParticipantView, ProjectView,
};
use crate::room::RoomStatus;
use vstd::prelude::*;

verus! {

/// An update of the room that waits for the users in it to be fetched.
#[verifier::ext_equal]
pub struct PendingUpdateView {
    pub local_participant: Option<ParticipantView>,
    pub participants: Seq<ParticipantView>,
}

/// The users to fetch for an update of the room.
#[verifier::ext_equal]
pub struct UserFetchView {
    pub remote_user_ids: Seq<u64>,
    pub pending_user_ids: Seq<u64>,
}

/// The state of a room.
#[verifier::ext_equal]
#[verifier::reject_recursive_types(F)]
#[verifier::reject_recursive_types(T)]
#[verifier::reject_recursive_types(P)]
pub struct RoomView<F, T, P> {
    pub id: u64,
    pub live_kit: Option<LiveKitRoom<P>>,
    pub status: RoomStatus,
    pub local_participant: LocalParticipantView,
    pub remote_participants: Map<PeerId, RemoteParticipantView<F, T>>,
    pub pending_participants: Seq<UserView>,
    pub participant_user_ids: Set<u64>,
    pub pending_call_count: usize,
    pub leave_when_empty: bool,
    pub subscribed: bool,
    pub pending_room_update: Option<PendingUpdateView>,
}

/// What one operation on a room does: its result, the room after it, and what
/// it asks of the host.
#[verifier::ext_equal]
#[verifier::reject_recursive_types(F)]
#[verifier::reject_recursive_types(T)]
#[verifier::reject_recursive_types(P)]
pub struct Step<F, T, P, R> {
    pub result: R,
    pub room: RoomView<F, T, P>,
    pub effects: Seq<EffectView<P>>,
}

impl<F, T, P, R> Step<F, T, P, R> {
    /// Whether an operation with this outcome ended with `result` and `room`,
    /// and took what is asked of the host from `before` to `after`.
    pub open spec fn happened(
        self,
        result: R,
        room: RoomView<F, T, P>,
        before: Seq<EffectView<P>>,
        after: Seq<EffectView<P>>,
    ) -> bool {
        &&& result == self.result
        &&& room == self.room
        &&& after == before + self.effects
    }
}

/// The projects of `current` that are not among `earlier`, in order.
pub open spec fn newly_shared(earlier: Seq<ProjectView>, current: Seq<ProjectView>) -> Seq<
    ProjectView,
> {
    current.filter(|p: ProjectView| !project_ids(earlier).contains(p.id))
}

/// The ids that occur in `earlier` and not in `current`, each once, in the order in
/// which they first occur.
pub open spec fn no_longer_shared(earlier: Seq<ProjectView>, current: Seq<ProjectView>) -> Seq<u64>
    decreases earlier.len(),
{
    if earlier.len() == 0 {
        Seq::empty()
    } else {
        let ids = no_longer_shared(earlier.drop_last(), current);
        let id = earlier.last().id;
        if project_ids(current).contains(id) || ids.contains(id) {
            ids
        } else {
            ids.push(id)
        }
    }
}

/// Tells the observers that `owner` has shared `projects`.
pub open spec fn shared_effects<P>(owner: UserView, projects: Seq<ProjectView>) -> Seq<
    EffectView<P>,
> {
    projects.map_values(
        |p: ProjectView|
            EffectView::Emit(
                EventView::RemoteProjectShared {
                    owner,
                    project_id: p.id,
                    worktree_root_names: p.worktree_root_names,
                },
            ),
    )
}

/// Tells the observers that the projects with these ids are no longer shared.
pub open spec fn unshared_effects<P>(ids: Seq<u64>) -> Seq<EffectView<P>> {
    ids.map_values(
        |id: u64| EffectView::Emit(EventView::RemoteProjectUnshared { project_id: id }),
    )
}

/// Tells the observers that those of `participants` whose peer id is below
/// `bound` and whose user is not in `present` no longer share their projects,
/// in the order of the peer ids.
pub open spec fn departure_effects<F, T, P>(
    participants: Map<PeerId, RemoteParticipantView<F, T>>,
    present: Set<u64>,
    bound: nat,
) -> Seq<EffectView<P>>
    decreases bound,
{
    if bound == 0 {
        Seq::empty()
    } else {
        let peer_id = (bound - 1) as PeerId;
        let before = departure_effects(participants, present, (bound - 1) as nat);
        if participants.contains_key(peer_id) && !present.contains(
            participants[peer_id].user.id,
        ) {
            before + unshared_effects(project_ids(participants[peer_id].projects))
        } else {
            before
        }
    }
}

/// The number of peer ids.
pub open spec fn peer_id_bound() -> nat {
    (u32::MAX + 1) as nat
}

/// The position of the first participant who is the local user.
pub open spec fn local_index(
    participants: Seq<ParticipantView>,
    local_user_id: Option<u64>,
) -> Option<int> {
    match local_user_id {
        Some(id) => participant_user_ids(participants).index_of_first(id),
        None => None,
    }
}

/// The update without the participant at `i`, in whose place the last one moves.
pub open spec fn swap_removed(participants: Seq<ParticipantView>, i: int) -> Seq<ParticipantView> {
    participants.update(i, participants.last()).drop_last()
}

/// The update that a room message announces, with the local user set apart.
pub open spec fn announced_update(
    participants: Seq<ParticipantView>,
    local_user_id: Option<u64>,
) -> PendingUpdateView {
    match local_index(participants, local_user_id) {
        Some(i) => PendingUpdateView {
            local_participant: Some(participants[i]),
            participants: swap_removed(participants, i),
        },
        None => PendingUpdateView { local_participant: None, participants },
    }
}

/// The number of participants of an update for whom a user was fetched.
pub open spec fn matched_len(participants: Seq<ParticipantView>, users: Seq<UserView>) -> nat {
    if participants.len() <= users.len() {
        participants.len()
    } else {
        users.len()
    }
}

/// Whether no participant before the one at `i` has the same peer id.
pub open spec fn first_sighting(participants: Seq<ParticipantView>, i: int) -> bool {
    forall|j: int| 0 <= j < i ==> participants[j].peer_id != participants[i].peer_id
}

/// The tracks at position `i`, or none.
pub open spec fn tracks_at<T>(tracks: Seq<Seq<SubscribedTrackView<T>>>, i: int) -> Seq<
    SubscribedTrackView<T>,
> {
    if 0 <= i < tracks.len() {
        tracks[i]
    } else {
        Seq::empty()
    }
}

impl<F, T, P> RoomView<F, T, P> {
    /// Nothing happens but that `result` is returned.
    pub open spec fn unchanged<R>(self, result: R) -> Step<F, T, P, R> {
        Step { result, room: self, effects: Seq::empty() }
    }

    /// Whether the room is to be left because nobody else is in it.
    pub open spec fn should_leave(self) -> bool {
        &&& self.leave_when_empty
        &&& self.pending_room_update is None
        &&& self.pending_participants.len() == 0
        &&& self.remote_participants.dom() == Set::<PeerId>::empty()
        &&& self.pending_call_count == 0
    }

    /// The room after it has been left.
    pub open spec fn vacated(self) -> Self {
        RoomView {
            status: RoomStatus::Offline,
            remote_participants: Map::empty(),
            pending_participants: Seq::empty(),
            participant_user_ids: Set::empty(),
            subscribed: false,
            live_kit: None,
            ..self
        }
    }

    /// What leaving the room asks of the host.
    pub open spec fn farewell(self) -> Seq<EffectView<P>> {
        seq![EffectView::Notify, EffectView::Emit(EventView::Left), EffectView::Unsubscribe] + (
        if self.live_kit is Some {
            seq![EffectView::DisconnectLiveKit]
        } else {
            Seq::empty()
        }) + seq![EffectView::LeaveRoom { room_id: self.id }]
    }

    /// Leaves the room, which is refused where it has been left.
    pub open spec fn leave(self) -> Step<F, T, P, Result<(), RoomError>> {
        if self.status is Offline {
            self.unchanged(Err(RoomError::Offline))
        } else {
            Step { result: Ok(()), room: self.vacated(), effects: self.farewell() }
        }
    }

    /// What is left to do when the room is dropped: one that has not been left is
    /// left.
    pub open spec fn release(self) -> Step<F, T, P, ()> {
        Step {
            result: (),
            room: self,
            effects: if self.status is Online {
                seq![EffectView::LeaveRoom { room_id: self.id }]
            } else {
                Seq::empty()
            },
        }
    }

    /// Announces a change of the room, in place of one that still waits for its
    /// users.
    pub open spec fn apply_room_update(
        self,
        participants: Seq<ParticipantView>,
        pending_user_ids: Seq<u64>,
        local_user_id: Option<u64>,
    ) -> Step<F, T, P, UserFetchView> {
        let update = announced_update(participants, local_user_id);
        Step {
            result: UserFetchView {
                remote_user_ids: participant_user_ids(update.participants),
                pending_user_ids,
            },
            room: RoomView { pending_room_update: Some(update), ..self },
            effects: seq![EffectView::Notify],
        }
    }

    /// Announces the change that the server gives notice of, if it is there.
    pub open spec fn handle_room_updated(
        self,
        room: Option<proto::Room>,
        local_user_id: Option<u64>,
    ) -> Step<F, T, P, Result<UserFetchView, RoomError>> {
        match room {
            Some(room) => {
                let step = self.apply_room_update(
                    participants_view(room.participants@),
                    room.pending_participant_user_ids@,
                    local_user_id,
                );
                Step { result: Ok(step.result), room: step.room, effects: step.effects }
            },
            None => self.unchanged(Err(RoomError::InvalidRoom)),
        }
    }

    /// The projects that the peer shares.
    pub open spec fn projects_of(self, peer_id: PeerId) -> Seq<ProjectView> {
        if self.remote_participants.contains_key(peer_id) {
            self.remote_participants[peer_id].projects
        } else {
            Seq::empty()
        }
    }

    /// What the observers are told when a participant is seen in an update.
    pub open spec fn project_effects(self, participant: ParticipantView, user: UserView) -> Seq<
        EffectView<P>,
    > {
        let earlier = self.projects_of(participant.peer_id);
        shared_effects(user, newly_shared(earlier, participant.projects)) + unshared_effects(
            no_longer_shared(earlier, participant.projects),
        )
    }

    /// The entry of a participant who is seen in an update. One who was in the
    /// room before keeps the user and the tracks.
    pub open spec fn updated_entry(
        self,
        participant: ParticipantView,
        user: UserView,
    ) -> RemoteParticipantView<F, T> {
        let projects = participant.projects;
        let location = ParticipantLocation::shown(participant.location);
        if self.remote_participants.contains_key(participant.peer_id) {
            RemoteParticipantView {
                projects,
                location,
                ..self.remote_participants[participant.peer_id]
            }
        } else {
            RemoteParticipantView { user, projects, location, tracks: Map::empty() }
        }
    }

    /// The room in which a participant has been seen in an update.
    pub open spec fn with_participant(self, participant: ParticipantView, user: UserView) -> Self {
        RoomView {
            participant_user_ids: self.participant_user_ids.insert(participant.user_id),
            remote_participants: self.remote_participants.insert(
                participant.peer_id,
                self.updated_entry(participant, user),
            ),
            ..self
        }
    }

    /// Whether the tracks of the participant are to be looked up: it is new, and
    /// there is a connection to the media server.
    pub open spec fn looks_up_tracks(self, peer_id: PeerId) -> bool {
        self.live_kit is Some && !self.remote_participants.contains_key(peer_id)
    }

    /// Takes over one participant of an update. `tracks` are the tracks that it
    /// publishes.
    pub open spec fn apply_participant(
        self,
        participant: ParticipantView,
        user: UserView,
        tracks: Seq<SubscribedTrackView<T>>,
    ) -> Step<F, T, P, ()> {
        let subscribed = self.with_participant(participant, user).subscribe_all(
            if self.looks_up_tracks(participant.peer_id) {
                tracks
            } else {
                Seq::empty()
            },
        );
        Step {
            effects: self.project_effects(participant, user) + subscribed.effects,
            ..subscribed
        }
    }

    /// Takes over the first `n` participants of an update, one after the other.
    pub open spec fn apply_participants(
        self,
        participants: Seq<ParticipantView>,
        users: Seq<UserView>,
        tracks: Seq<Seq<SubscribedTrackView<T>>>,
        n: nat,
    ) -> Step<F, T, P, ()>
        decreases n,
    {
        if n == 0 {
            self.unchanged(())
        } else {
            let i = n - 1;
            let before = self.apply_participants(participants, users, tracks, i as nat);
            let step = before.room.apply_participant(
                participants[i],
                users[i],
                tracks_at(tracks, i),
            );
            Step { effects: before.effects + step.effects, ..step }
        }
    }

    /// The room without the participants whose user is not in it any more.
    pub open spec fn without_absentees(self) -> Self {
        RoomView {
            remote_participants: self.remote_participants.restrict(
                Set::new(
                    |peer_id: PeerId|
                        self.participant_user_ids.contains(
                            self.remote_participants[peer_id].user.id,
                        ),
                ),
            ),
            ..self
        }
    }

    /// Removes the participants whose user is not in the room any more.
    pub open spec fn remove_absentees(self) -> Step<F, T, P, ()> {
        Step {
            result: (),
            room: self.without_absentees(),
            effects: departure_effects(
                self.remote_participants,
                self.participant_user_ids,
                peer_id_bound(),
            ),
        }
    }

    /// The room at the start of an update: none waits any more, nobody has been
    /// seen, and the local participant shares what the update says.
    pub open spec fn update_started(self, local_participant: Option<ParticipantView>) -> Self {
        RoomView {
            participant_user_ids: Set::empty(),
            local_participant: LocalParticipantView {
                projects: match local_participant {
                    Some(participant) => participant.projects,
                    None => Seq::empty(),
                },
                ..self.local_participant
            },
            pending_room_update: None,
            ..self
        }
    }

    /// Takes over the participants of an update, where their users were fetched.
    pub open spec fn take_remote_users(
        self,
        participants: Seq<ParticipantView>,
        users: Option<Seq<UserView>>,
        tracks: Seq<Seq<SubscribedTrackView<T>>>,
    ) -> Step<F, T, P, ()> {
        match users {
            Some(users) => {
                let applied = self.apply_participants(
                    participants,
                    users,
                    tracks,
                    matched_len(participants, users),
                );
                let removed = applied.room.remove_absentees();
                Step { effects: applied.effects + removed.effects, ..removed }
            },
            None => self.unchanged(()),
        }
    }

    /// Takes over the users who are being called, where they were fetched.
    pub open spec fn take_pending_users(self, users: Option<Seq<UserView>>) -> Self {
        match users {
            Some(users) => RoomView {
                pending_participants: users,
                participant_user_ids: self.participant_user_ids.union(user_ids(users).to_set()),
                ..self
            },
            None => self,
        }
    }

    /// Leaves the room if nobody else is in it. That it has been left already
    /// goes unnoticed.
    pub open spec fn leave_if_empty(self) -> Step<F, T, P, ()> {
        if self.should_leave() {
            let step = self.leave();
            Step { result: (), room: step.room, effects: step.effects }
        } else {
            self.unchanged(())
        }
    }

    /// Under which names the tracks of the participants of the update are to be
    /// looked up: those of each new participant, where it occurs first.
    pub open spec fn track_queries(self, remote_users: Option<Seq<UserView>>) -> Seq<
        Option<Seq<char>>,
    > {
        match (self.pending_room_update, remote_users) {
            (Some(update), Some(users)) => Seq::new(
                matched_len(update.participants, users),
                |i: int|
                    {
                        let peer_id = update.participants[i].peer_id;
                        if self.looks_up_tracks(peer_id) && first_sighting(
                            update.participants,
                            i,
                        ) {
                            Some(decimal_digits(peer_id as nat))
                        } else {
                            None
                        }
                    },
            ),
            _ => Seq::empty(),
        }
    }

    /// Takes over the update that waits for its users. A list of users is
    /// missing where it could not be fetched.
    pub open spec fn finish_room_update(
        self,
        remote_users: Option<Seq<UserView>>,
        pending_users: Option<Seq<UserView>>,
        tracks: Seq<Seq<SubscribedTrackView<T>>>,
    ) -> Step<F, T, P, ()>
        recommends
            self.pending_room_update is Some,
    {
        let update = self.pending_room_update->0;
        let remote = self.update_started(update.local_participant).take_remote_users(
            update.participants,
            remote_users,
            tracks,
        );
        let left = remote.room.take_pending_users(pending_users).leave_if_empty();
        Step { effects: remote.effects + left.effects + seq![EffectView::Notify], ..left }
    }

    /// The participant with one more, or another, track.
    pub open spec fn with_track(
        self,
        peer_id: PeerId,
        track_id: Seq<char>,
        track: RemoteVideoTrack<F, T>,
    ) -> Self {
        let participant = self.remote_participants[peer_id];
        RoomView {
            remote_participants: self.remote_participants.insert(
                peer_id,
                RemoteParticipantView {
                    tracks: participant.tracks.insert(track_id, track),
                    ..participant
                },
            ),
            ..self
        }
    }

    /// The participant without a track.
    pub open spec fn without_track(self, peer_id: PeerId, track_id: Seq<char>) -> Self {
        let participant = self.remote_participants[peer_id];
        RoomView {
            remote_participants: self.remote_participants.insert(
                peer_id,
                RemoteParticipantView {
                    tracks: participant.tracks.remove(track_id),
                    ..participant
                },
            ),
            ..self
        }
    }

    /// Takes over a change to the tracks of a participant.
    pub open spec fn remote_video_track_updated(
        self,
        update: RemoteVideoTrackUpdateView<T>,
    ) -> Step<F, T, P, Result<(), RoomError>> {
        let publisher_id = match update {
            RemoteVideoTrackUpdateView::Subscribed(track) => track.publisher_id,
            RemoteVideoTrackUpdateView::Unsubscribed { publisher_id, track_id } => publisher_id,
        };
        match peer_id_named(publisher_id) {
            Err(error) => self.unchanged(Err(RoomError::InvalidPublisherId(error))),
            Ok(peer_id) => {
                let known = self.remote_participants.contains_key(peer_id);
                match update {
                    RemoteVideoTrackUpdateView::Subscribed(track) => if known {
                        Step {
                            result: Ok(()),
                            room: self.with_track(
                                peer_id,
                                track.sid,
                                RemoteVideoTrack {
                                    frame: None,
                                    live_kit_track: track.live_kit_track,
                                },
                            ),
                            effects: seq![EffectView::Notify],
                        }
                    } else {
                        self.unchanged(Err(RoomError::SubscribedToUnknownParticipant))
                    },
                    RemoteVideoTrackUpdateView::Unsubscribed { publisher_id, track_id } => if known {
                        Step {
                            result: Ok(()),
                            room: self.without_track(peer_id, track_id),
                            effects: seq![EffectView::Notify],
                        }
                    } else {
                        self.unchanged(Err(RoomError::UnsubscribedFromUnknownParticipant))
                    },
                }
            },
        }
    }

    /// Takes over tracks one after the other. One that is refused is passed over, and
    /// why is logged.
    pub open spec fn subscribe_all(self, tracks: Seq<SubscribedTrackView<T>>) -> Step<F, T, P, ()>
        decreases tracks.len(),
    {
        if tracks.len() == 0 {
            self.unchanged(())
        } else {
            let before = self.subscribe_all(tracks.drop_last());
            let step = before.room.remote_video_track_updated(
                RemoteVideoTrackUpdateView::Subscribed(tracks.last()),
            );
            let logged = match step.result {
                Ok(()) => Seq::empty(),
                Err(error) => seq![EffectView::LogError(error)],
            };
            Step { result: (), room: step.room, effects: before.effects + step.effects + logged }
        }
    }

    /// Takes over a picture of a track. The result says whether the track is gone.
    pub open spec fn frame_received(self, peer_id: PeerId, track_id: Seq<char>, frame: F) -> Step<
        F,
        T,
        P,
        bool,
    > {
        if self.remote_participants.contains_key(peer_id)
            && self.remote_participants[peer_id].tracks.contains_key(track_id) {
            Step {
                result: false,
                room: self.with_track(
                    peer_id,
                    track_id,
                    RemoteVideoTrack {
                        frame: Some(frame),
                        ..self.remote_participants[peer_id].tracks[track_id]
                    },
                ),
                effects: seq![
                    EffectView::Emit(EventView::Frame { participant_id: peer_id, track_id }),
                ],
            }
        } else {
            self.unchanged(true)
        }
    }

    /// A new room.
    pub open spec fn opened(
        id: u64,
        live_kit_connection_info: Option<proto::LiveKitConnectionInfo>,
    ) -> Step<F, T, P, ()> {
        Step {
            result: (),
            room: RoomView {
                id,
                live_kit: if live_kit_connection_info is Some {
                    Some(LiveKitRoom { screen_track: ScreenTrack::NotShared, next_publish_id: 0 })
                } else {
                    None
                },
                status: RoomStatus::Online,
                local_participant: LocalParticipantView {
                    projects: Seq::empty(),
                    active_project: None,
                },
                remote_participants: Map::empty(),
                pending_participants: Seq::empty(),
                participant_user_ids: Set::empty(),
                pending_call_count: 0,
                leave_when_empty: false,
                subscribed: true,
                pending_room_update: None,
            },
            effects: seq![EffectView::WatchConnection] + (match live_kit_connection_info {
                Some(info) => seq![
                    EffectView::ConnectLiveKit { server_url: info.server_url@, token: info.token@ },
                ],
                None => Seq::empty(),
            }) + seq![EffectView::Subscribe],
        }
    }

    /// The room that is left when nobody else is in it.
    pub open spec fn leaving_when_empty(self) -> Self {
        RoomView { leave_when_empty: true, ..self }
    }

    /// Calls a user into the room.
    pub open spec fn call(
        self,
        recipient_user_id: u64,
        initial_project_id: Option<u64>,
    ) -> Step<F, T, P, Result<proto::Call, RoomError>> {
        if self.status is Offline {
            self.unchanged(Err(RoomError::Offline))
        } else {
            Step {
                result: Ok(
                    proto::Call { room_id: self.id, recipient_user_id, initial_project_id },
                ),
                room: RoomView {
                    pending_call_count: (self.pending_call_count + 1) as usize,
                    ..self
                },
                effects: seq![EffectView::Notify],
            }
        }
    }

    /// Takes note of the answer to a call. That the room cannot be left where it
    /// is to be left takes the place of the answer.
    pub open spec fn call_finished(self, answer: Result<(), RoomError>) -> Step<
        F,
        T,
        P,
        Result<(), RoomError>,
    > {
        let after = RoomView {
            pending_call_count: (self.pending_call_count - 1) as usize,
            ..self
        };
        if after.should_leave() {
            let left = after.leave();
            Step {
                result: match left.result {
                    Ok(()) => answer,
                    Err(error) => Err(error),
                },
                ..left
            }
        } else {
            after.unchanged(answer)
        }
    }

    /// Calls the first user into a new room, after the project that the call is
    /// about has been shared, if there is one.
    pub open spec fn first_call(
        self,
        recipient_user_id: u64,
        shared_project: Option<Result<u64, RoomError>>,
    ) -> Step<F, T, P, Result<proto::Call, RoomError>> {
        match shared_project {
            Some(Err(error)) => self.unchanged(Err(error)),
            _ => {
                let initial_project_id = match shared_project {
                    Some(Ok(project_id)) => Some(project_id),
                    _ => None,
                };
                let called = self.leaving_when_empty().call(recipient_user_id, initial_project_id);
                Step {
                    result: match called.result {
                        Ok(call) => Ok(call),
                        Err(error) => Err(RoomError::CreationFailed(Box::new(error))),
                    },
                    ..called
                }
            },
        }
    }

    /// The room in which the local participant works on `project`.
    pub open spec fn located(self, project: Option<Project>) -> Self {
        RoomView {
            local_participant: LocalParticipantView {
                active_project: match project {
                    Some(project) => Some(project.handle),
                    None => None,
                },
                ..self.local_participant
            },
            ..self
        }
    }

    /// What the room is told where the local participant works on `project`.
    pub open spec fn location_message(
        self,
        project: Option<Project>,
    ) -> proto::UpdateParticipantLocation {
        proto::UpdateParticipantLocation {
            room_id: self.id,
            location: Some(
                proto::ParticipantLocation {
                    variant: Some(
                        match project {
                            Some(project) => match project.remote_id {
                                Some(id) => proto::LocationVariant::SharedProject { id },
                                None => proto::LocationVariant::UnsharedProject,
                            },
                            None => proto::LocationVariant::External,
                        },
                    ),
                },
            ),
        }
    }

    /// Notes on which project the local participant works.
    pub open spec fn set_location(self, project: Option<Project>) -> Step<
        F,
        T,
        P,
        Result<proto::UpdateParticipantLocation, RoomError>,
    > {
        if self.status is Offline {
            self.unchanged(Err(RoomError::Offline))
        } else {
            Step {
                result: Ok(self.location_message(project)),
                room: self.located(project),
                effects: seq![EffectView::Notify],
            }
        }
    }

    /// Takes note that `project` is shared now. Where the local participant works
    /// on it, the room is told so.
    pub open spec fn project_shared(self, project: Project) -> Step<
        F,
        T,
        P,
        Result<Option<proto::UpdateParticipantLocation>, RoomError>,
    > {
        if self.local_participant.active_project == Some(project.handle) {
            let step = self.set_location(Some(project));
            Step {
                result: match step.result {
                    Ok(message) => Ok(Some(message)),
                    Err(error) => Err(error),
                },
                room: step.room,
                effects: step.effects,
            }
        } else {
            self.unchanged(Ok(None))
        }
    }

    /// Whether the screen is shared, or about to be.
    pub open spec fn is_screen_sharing(self) -> bool {
        self.live_kit matches Some(live_kit) && !(live_kit.screen_track is NotShared)
    }

    /// The room with another state of screen sharing.
    pub open spec fn with_screen_track(self, screen_track: ScreenTrack<P>) -> Self {
        RoomView {
            live_kit: Some(LiveKitRoom { screen_track, ..self.live_kit->0 }),
            ..self
        }
    }

    /// Why the screen cannot be shared, if it cannot.
    pub open spec fn share_screen_refusal(self) -> Option<RoomError> {
        if self.status is Offline {
            Some(RoomError::Offline)
        } else if self.is_screen_sharing() {
            Some(RoomError::ScreenAlreadyShared)
        } else if self.live_kit is None {
            Some(RoomError::LiveKitNotInitialized)
        } else {
            None
        }
    }

    /// Begins to share the screen. The result is the id of the publication that
    /// is to be made.
    pub open spec fn share_screen(self) -> Step<F, T, P, Result<usize, RoomError>> {
        match self.share_screen_refusal() {
            Some(error) => self.unchanged(Err(error)),
            None => {
                let publish_id = self.live_kit->0.next_publish_id;
                Step {
                    result: Ok(publish_id),
                    room: RoomView {
                        live_kit: Some(
                            LiveKitRoom {
                                screen_track: ScreenTrack::Pending { publish_id },
                                next_publish_id: (publish_id + 1) as usize,
                            },
                        ),
                        ..self
                    },
                    effects: seq![EffectView::Notify],
                }
            },
        }
    }

    /// Whether the publication with this id is the one that is waited for.
    pub open spec fn awaits_publication(self, publish_id: usize) -> bool {
        self.live_kit matches Some(live_kit) && live_kit.screen_track == (ScreenTrack::<
            P,
        >::Pending { publish_id })
    }

    /// Takes note of how a publication went. One that is not waited for any more
    /// is taken back.
    pub open spec fn screen_published(
        self,
        publish_id: usize,
        publication: Result<P, RoomError>,
    ) -> Step<F, T, P, Result<(), RoomError>> {
        if self.live_kit is None {
            self.unchanged(Err(RoomError::LiveKitNotInitialized))
        } else if self.awaits_publication(publish_id) {
            match publication {
                Ok(publication) => Step {
                    result: Ok(()),
                    room: self.with_screen_track(ScreenTrack::Published(publication)),
                    effects: seq![EffectView::Notify],
                },
                Err(error) => Step {
                    result: Err(error),
                    room: self.with_screen_track(ScreenTrack::NotShared),
                    effects: seq![EffectView::Notify],
                },
            }
        } else {
            Step {
                result: Ok(()),
                room: self,
                effects: match publication {
                    Ok(publication) => seq![EffectView::UnpublishTrack(publication)],
                    Err(error) => Seq::empty(),
                },
            }
        }
    }

    /// Stops sharing the screen, or beginning to share it.
    pub open spec fn unshare_screen(self) -> Step<F, T, P, Result<(), RoomError>> {
        if self.status is Offline {
            self.unchanged(Err(RoomError::Offline))
        } else if self.live_kit is None {
            self.unchanged(Err(RoomError::LiveKitNotInitialized))
        } else if !self.is_screen_sharing() {
            self.unchanged(Err(RoomError::ScreenNotShared))
        } else {
            Step {
                result: Ok(()),
                room: self.with_screen_track(ScreenTrack::NotShared),
                effects: (match self.live_kit->0.screen_track {
                    ScreenTrack::Published(publication) => seq![
                        EffectView::UnpublishTrack(publication),
                    ],
                    _ => Seq::empty(),
                }) + seq![EffectView::Notify],
            }
        }
    }

    /// Whether everybody in the room is counted, once, among its users.
    pub open spec fn consistent(self) -> bool {
        &&& forall|peer_id: PeerId| #[trigger]
            self.remote_participants.contains_key(peer_id) ==> self.participant_user_ids.contains(
                self.remote_participants[peer_id].user.id,
            )
        &&& forall|i: int|
            0 <= i < self.pending_participants.len() ==> self.participant_user_ids.contains(
                #[trigger] self.pending_participants[i].id,
            )
        &&& self.participant_user_ids.len() == self.remote_participants.dom().len()
            + self.pending_participants.len()
    }
}

} // verus!

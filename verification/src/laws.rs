//! What holds of every room, whatever is done to it.

use crate::error::RoomError;
use crate::event::{EffectView, EventView};
use crate::identity::PeerId;
use crate::media::{RemoteVideoTrackUpdateView, ScreenTrack, SubscribedTrackView};
use crate::model::{RoomView, Step};
use crate::participant::UserView;
use crate::project::Project;
use crate::proto;
use crate::proto::ParticipantView;
use vstd::prelude::*;

use self::frame::{
    lemma_apply_participants, lemma_departures_quiet, lemma_quiet_add, lemma_track_update, quiet,
};

pub mod activity;
pub mod counted;
pub mod frame;
pub mod outcomes;
pub mod told;
pub mod updates;

verus! {

/// One thing that can be done to a room.
#[verifier::reject_recursive_types(F)]
#[verifier::reject_recursive_types(T)]
#[verifier::reject_recursive_types(P)]
pub enum Operation<F, T, P> {
    Leave,
    ApplyRoomUpdate {
        participants: Seq<ParticipantView>,
        pending_user_ids: Seq<u64>,
        local_user_id: Option<u64>,
    },
    FinishRoomUpdate {
        remote_users: Option<Seq<UserView>>,
        pending_users: Option<Seq<UserView>>,
        tracks: Seq<Seq<SubscribedTrackView<T>>>,
    },
    TrackUpdated(RemoteVideoTrackUpdateView<T>),
    FrameReceived { peer_id: PeerId, track_id: Seq<char>, frame: F },
    Call { recipient_user_id: u64, initial_project_id: Option<u64> },
    FirstCall { recipient_user_id: u64, shared_project: Option<Result<u64, RoomError>> },
    CallFinished(Result<(), RoomError>),
    SetLocation(Option<Project>),
    ProjectShared(Project),
    ShareScreen,
    ScreenPublished { publish_id: usize, publication: Result<P, RoomError> },
    UnshareScreen,
}

impl<F, T, P> RoomView<F, T, P> {
    /// Whether the operation may be performed.
    pub open spec fn admits(self, operation: Operation<F, T, P>) -> bool {
        match operation {
            Operation::FinishRoomUpdate { .. } => self.pending_room_update is Some,
            Operation::Call { .. } => self.status is Online ==> self.pending_call_count
                < usize::MAX,
            Operation::FirstCall { shared_project, .. } => self.status is Online && !(
            shared_project matches Some(Err(_))) ==> self.pending_call_count < usize::MAX,
            Operation::CallFinished(_) => self.pending_call_count > 0,
            Operation::ShareScreen => self.share_screen_refusal() is None
                ==> self.live_kit->0.next_publish_id < usize::MAX,
            _ => true,
        }
    }

    /// The room after the operation, and what the operation asks of the host.
    pub open spec fn perform(self, operation: Operation<F, T, P>) -> Step<F, T, P, ()> {
        match operation {
            Operation::Leave => self.leave().forget(),
            Operation::ApplyRoomUpdate { participants, pending_user_ids, local_user_id } =>
                self.apply_room_update(participants, pending_user_ids, local_user_id).forget(),
            Operation::FinishRoomUpdate { remote_users, pending_users, tracks } =>
                self.finish_room_update(remote_users, pending_users, tracks),
            Operation::TrackUpdated(update) => self.remote_video_track_updated(update).forget(),
            Operation::FrameReceived { peer_id, track_id, frame } =>
                self.frame_received(peer_id, track_id, frame).forget(),
            Operation::Call { recipient_user_id, initial_project_id } =>
                self.call(recipient_user_id, initial_project_id).forget(),
            Operation::FirstCall { recipient_user_id, shared_project } =>
                self.first_call(recipient_user_id, shared_project).forget(),
            Operation::CallFinished(answer) => self.call_finished(answer).forget(),
            Operation::SetLocation(project) => self.set_location(project).forget(),
            Operation::ProjectShared(project) => self.project_shared(project).forget(),
            Operation::ShareScreen => self.share_screen().forget(),
            Operation::ScreenPublished { publish_id, publication } =>
                self.screen_published(publish_id, publication).forget(),
            Operation::UnshareScreen => self.unshare_screen().forget(),
        }
    }

    /// What holds of every room at any time:
    /// - updates of the room are reported for as long as it has not been left;
    /// - a room that has been left has no connection to the media server;
    /// - the id of a publication that is waited for has been given out;
    /// - a room that is to be left when nobody else is in it has been left then.
    pub open spec fn sound(self) -> bool {
        &&& self.subscribed <==> self.status is Online
        &&& self.status is Offline ==> self.live_kit is None
        &&& self.live_kit matches Some(live_kit) ==> (live_kit.screen_track matches
            ScreenTrack::Pending { publish_id } ==> publish_id < live_kit.next_publish_id)
        &&& self.status is Online ==> !self.should_leave()
    }

    /// The room after the operations, one after the other.
    pub open spec fn perform_all(self, operations: Seq<Operation<F, T, P>>) -> Self
        decreases operations.len(),
    {
        if operations.len() == 0 {
            self
        } else {
            self.perform_all(operations.drop_last()).perform(operations.last()).room
        }
    }

    /// What the operations ask of the host, one after the other.
    pub open spec fn effects_of_all(self, operations: Seq<Operation<F, T, P>>) -> Seq<
        EffectView<P>,
    >
        decreases operations.len(),
    {
        if operations.len() == 0 {
            Seq::empty()
        } else {
            let before = operations.drop_last();
            self.effects_of_all(before) + self.perform_all(before).perform(
                operations.last(),
            ).effects
        }
    }

    /// Whether the operations may be performed, one after the other.
    pub open spec fn admits_all(self, operations: Seq<Operation<F, T, P>>) -> bool
        decreases operations.len(),
    {
        operations.len() > 0 ==> {
            &&& self.admits_all(operations.drop_last())
            &&& self.perform_all(operations.drop_last()).admits(operations.last())
        }
    }
}

impl<F, T, P, R> Step<F, T, P, R> {
    /// The step without its result.
    pub open spec fn forget(self) -> Step<F, T, P, ()> {
        Step { result: (), room: self.room, effects: self.effects }
    }
}

/// A room that was just created is sound.
pub proof fn law_created_room_is_sound<F, T, P>(
    id: u64,
    live_kit_connection_info: Option<proto::LiveKitConnectionInfo>,
)
    ensures
        RoomView::<F, T, P>::opened(id, live_kit_connection_info).room.sound(),
{
}

/// A room that was just joined is sound.
pub proof fn law_joined_room_is_sound<F, T, P>(
    id: u64,
    live_kit_connection_info: Option<proto::LiveKitConnectionInfo>,
    participants: Seq<ParticipantView>,
    pending_user_ids: Seq<u64>,
    local_user_id: Option<u64>,
)
    ensures
        RoomView::<F, T, P>::opened(
            id,
            live_kit_connection_info,
        ).room.leaving_when_empty().apply_room_update(
            participants,
            pending_user_ids,
            local_user_id,
        ).room.sound(),
{
}

/// What an update does to the fields that it is not about.
proof fn lemma_finish_room_update<F, T, P>(
    room: RoomView<F, T, P>,
    remote_users: Option<Seq<UserView>>,
    pending_users: Option<Seq<UserView>>,
    tracks: Seq<Seq<SubscribedTrackView<T>>>,
)
    requires
        room.pending_room_update is Some,
    ensures
        ({
            let update = room.pending_room_update->0;
            let remote = room.update_started(update.local_participant).take_remote_users(
                update.participants,
                remote_users,
                tracks,
            );
            let called = remote.room.take_pending_users(pending_users);
            &&& quiet(remote.effects)
            &&& called == (RoomView {
                local_participant: called.local_participant,
                remote_participants: called.remote_participants,
                pending_participants: called.pending_participants,
                participant_user_ids: called.participant_user_ids,
                pending_room_update: None,
                ..room
            })
        }),
{
    let update = room.pending_room_update->0;
    let started = room.update_started(update.local_participant);
    if let Some(users) = remote_users {
        let n = crate::model::matched_len(update.participants, users);
        lemma_apply_participants(started, update.participants, users, tracks, n);
        let applied = started.apply_participants(update.participants, users, tracks, n);
        let removed = applied.room.remove_absentees();
        lemma_departures_quiet::<F, T, P>(
            applied.room.remote_participants,
            applied.room.participant_user_ids,
            crate::model::peer_id_bound(),
        );
        lemma_quiet_add(applied.effects, removed.effects);
    }
}

/// Every operation keeps a room sound.
pub proof fn law_operations_keep_rooms_sound<F, T, P>(
    room: RoomView<F, T, P>,
    operation: Operation<F, T, P>,
)
    requires
        room.sound(),
        room.admits(operation),
    ensures
        room.perform(operation).room.sound(),
{
    match operation {
        Operation::FinishRoomUpdate { remote_users, pending_users, tracks } => {
            lemma_finish_room_update(room, remote_users, pending_users, tracks);
        },
        Operation::TrackUpdated(update) => {
            lemma_track_update(room, update);
        },
        Operation::FrameReceived { peer_id, track_id, frame } => {
            let after = room.perform(operation).room;
            assert(after.remote_participants.dom() =~= room.remote_participants.dom());
        },
        _ => {},
    }
}

/// Every room is sound at any time.
pub proof fn law_rooms_are_sound<F, T, P>(
    start: RoomView<F, T, P>,
    operations: Seq<Operation<F, T, P>>,
)
    requires
        start.sound(),
        start.admits_all(operations),
    ensures
        start.perform_all(operations).sound(),
    decreases operations.len(),
{
    if operations.len() > 0 {
        law_rooms_are_sound(start, operations.drop_last());
        law_operations_keep_rooms_sound(
            start.perform_all(operations.drop_last()),
            operations.last(),
        );
    }
}

/// No operation changes the id of a room, brings back one that has been left or
/// whose connection to the media server is gone, or makes one stay that is left
/// when nobody else is in it. Publication ids are given out in ascending order.
pub proof fn law_what_never_changes_back<F, T, P>(
    room: RoomView<F, T, P>,
    operation: Operation<F, T, P>,
)
    requires
        room.admits(operation),
    ensures
        ({
            let after = room.perform(operation).room;
            &&& after.id == room.id
            &&& room.status is Offline ==> after.status is Offline
            &&& room.live_kit is None ==> after.live_kit is None
            &&& !room.subscribed ==> !after.subscribed
            &&& room.leave_when_empty ==> after.leave_when_empty
            &&& after.live_kit is Some ==> room.live_kit->0.next_publish_id
                <= after.live_kit->0.next_publish_id
        }),
{
    match operation {
        Operation::FinishRoomUpdate { remote_users, pending_users, tracks } => {
            lemma_finish_room_update(room, remote_users, pending_users, tracks);
        },
        Operation::TrackUpdated(update) => {
            lemma_track_update(room, update);
        },
        _ => {},
    }
}

/// How often `effect` is asked for.
pub open spec fn times<P>(effects: Seq<EffectView<P>>, effect: EffectView<P>) -> nat {
    effects.to_multiset().count(effect)
}

proof fn lemma_times_add<P>(a: Seq<EffectView<P>>, b: Seq<EffectView<P>>, effect: EffectView<P>)
    ensures
        times(a + b, effect) == times(a, effect) + times(b, effect),
{
    broadcast use vstd::multiset::group_multiset_axioms;

    vstd::seq_lib::lemma_multiset_commutative(a, b);
}

/// What is never asked for is asked for no times.
proof fn lemma_never<P>(effects: Seq<EffectView<P>>, effect: EffectView<P>)
    requires
        forall|i: int| 0 <= i < effects.len() ==> #[trigger] effects[i] != effect,
    ensures
        times(effects, effect) == 0,
{
    vstd::seq_lib::to_multiset_contains(effects, effect);
}

/// What is asked for at one position only is asked for once.
proof fn lemma_once<P>(effects: Seq<EffectView<P>>, i: int)
    requires
        0 <= i < effects.len(),
        forall|j: int|
            0 <= j < effects.len() && j != i ==> #[trigger] effects[j] != effects[i],
    ensures
        times(effects, effects[i]) == 1,
{
    broadcast use vstd::multiset::group_multiset_axioms;

    let rest = effects.remove(i);
    vstd::seq_lib::to_multiset_remove(effects, i);
    vstd::seq_lib::to_multiset_contains(effects, effects[i]);
    assert(effects.contains(effects[i]));
    assert forall|j: int| 0 <= j < rest.len() implies #[trigger] rest[j] != effects[i] by {
        let k = if j < i {
            j
        } else {
            j + 1
        };
        assert(rest[j] == effects[k]);
    }
    lemma_never(rest, effects[i]);
}

/// The news that the room has been left.
pub open spec fn left_news<P>() -> EffectView<P> {
    EffectView::Emit(EventView::Left)
}

/// Leaving a room tells so once, to the observers and to the server.
proof fn lemma_farewell<F, T, P>(room: RoomView<F, T, P>, room_id: u64)
    ensures
        times(room.farewell(), left_news()) == 1,
        times(room.farewell(), EffectView::LeaveRoom { room_id }) == if room_id == room.id {
            1nat
        } else {
            0
        },
{
    let farewell = room.farewell();
    let last = farewell.len() - 1;
    assert(farewell[1] == left_news::<P>());
    assert(farewell[last] == EffectView::<P>::LeaveRoom { room_id: room.id });
    lemma_once(farewell, 1);
    if room_id == room.id {
        lemma_once(farewell, last);
    } else {
        lemma_never(farewell, EffectView::LeaveRoom { room_id });
    }
}

/// The observers are told that the room has been left, and the server is told to
/// count the participant out, once when an operation leaves the room and never
/// otherwise. The server is told so of no other room.
pub proof fn law_leaving_is_told<F, T, P>(
    room: RoomView<F, T, P>,
    operation: Operation<F, T, P>,
    room_id: u64,
)
    requires
        room.admits(operation),
    ensures
        ({
            let step = room.perform(operation);
            let left = room.status is Online && step.room.status is Offline;
            &&& times(step.effects, left_news()) == if left {
                1nat
            } else {
                0
            }
            &&& times(step.effects, EffectView::LeaveRoom { room_id }) == if left && room_id
                == room.id {
                1nat
            } else {
                0
            }
        }),
{
    let step = room.perform(operation);
    let news = left_news::<P>();
    let message = EffectView::<P>::LeaveRoom { room_id };
    lemma_farewell(room, room_id);
    match operation {
        Operation::Leave => {
            if room.status is Offline {
                lemma_never(step.effects, news);
                lemma_never(step.effects, message);
            }
        },
        Operation::FinishRoomUpdate { remote_users, pending_users, tracks } => {
            lemma_finish_room_update(room, remote_users, pending_users, tracks);
            let update = room.pending_room_update->0;
            let remote = room.update_started(update.local_participant).take_remote_users(
                update.participants,
                remote_users,
                tracks,
            );
            let called = remote.room.take_pending_users(pending_users);
            let leaving = called.leave_if_empty().effects;
            let end = seq![EffectView::<P>::Notify];
            assert(step.effects == remote.effects + leaving + end);
            lemma_times_add(remote.effects + leaving, end, news);
            lemma_times_add(remote.effects, leaving, news);
            lemma_times_add(remote.effects + leaving, end, message);
            lemma_times_add(remote.effects, leaving, message);
            lemma_never(remote.effects, news);
            lemma_never(remote.effects, message);
            lemma_never(end, news);
            lemma_never(end, message);
            if called.should_leave() && room.status is Online {
                assert(leaving == room.farewell());
            } else {
                lemma_never(leaving, news);
                lemma_never(leaving, message);
            }
        },
        Operation::CallFinished(answer) => {
            if room.status is Online && step.room.status is Offline {
                assert(step.effects == room.farewell());
            } else {
                lemma_never(step.effects, news);
                lemma_never(step.effects, message);
            }
        },
        _ => {
            lemma_never(step.effects, news);
            lemma_never(step.effects, message);
        },
    }
}

/// Over any operations, leaving is told once if the room is left by them, and never
/// otherwise.
proof fn lemma_leaving_is_told_once<F, T, P>(
    room: RoomView<F, T, P>,
    operations: Seq<Operation<F, T, P>>,
    room_id: u64,
)
    requires
        room.admits_all(operations),
    ensures
        ({
            let after = room.perform_all(operations);
            let effects = room.effects_of_all(operations);
            let left = room.status is Online && after.status is Offline;
            &&& after.id == room.id
            &&& room.status is Offline ==> after.status is Offline
            &&& times(effects, left_news()) == if left {
                1nat
            } else {
                0
            }
            &&& times(effects, EffectView::LeaveRoom { room_id }) == if left && room_id
                == room.id {
                1nat
            } else {
                0
            }
        }),
    decreases operations.len(),
{
    let news = left_news::<P>();
    let message = EffectView::<P>::LeaveRoom { room_id };
    if operations.len() == 0 {
        lemma_never(room.effects_of_all(operations), news);
        lemma_never(room.effects_of_all(operations), message);
    } else {
        let before = operations.drop_last();
        let last = operations.last();
        lemma_leaving_is_told_once(room, before, room_id);
        let reached = room.perform_all(before);
        law_leaving_is_told(reached, last, room_id);
        law_what_never_changes_back(reached, last);
        lemma_times_add(room.effects_of_all(before), reached.perform(last).effects, news);
        lemma_times_add(room.effects_of_all(before), reached.perform(last).effects, message);
    }
}

/// Over the whole life of a room, from when it is created or joined until it is
/// dropped, the server is told exactly once that the participant leaves it, and of no
/// other room. The observers are told once if the room has been left before it is
/// dropped, and never otherwise.
pub proof fn law_room_is_left_once<F, T, P>(
    id: u64,
    live_kit_connection_info: Option<proto::LiveKitConnectionInfo>,
    joined: bool,
    operations: Seq<Operation<F, T, P>>,
    room_id: u64,
)
    requires
        ({
            let opened = RoomView::<F, T, P>::opened(id, live_kit_connection_info).room;
            let room = if joined {
                opened.leaving_when_empty()
            } else {
                opened
            };
            room.admits_all(operations)
        }),
    ensures
        ({
            let opened = RoomView::<F, T, P>::opened(id, live_kit_connection_info);
            let room = if joined {
                opened.room.leaving_when_empty()
            } else {
                opened.room
            };
            let last = room.perform_all(operations);
            let life = opened.effects + room.effects_of_all(operations) + last.release().effects;
            &&& times(life, EffectView::LeaveRoom { room_id }) == if room_id == id {
                1nat
            } else {
                0
            }
            &&& times(life, left_news()) == if last.status is Offline {
                1nat
            } else {
                0
            }
        }),
{
    let opened = RoomView::<F, T, P>::opened(id, live_kit_connection_info);
    let room = if joined {
        opened.room.leaving_when_empty()
    } else {
        opened.room
    };
    let news = left_news::<P>();
    let message = EffectView::<P>::LeaveRoom { room_id };
    let lived = room.effects_of_all(operations);
    let released = room.perform_all(operations).release().effects;
    lemma_leaving_is_told_once(room, operations, room_id);
    lemma_times_add(opened.effects + lived, released, news);
    lemma_times_add(opened.effects, lived, news);
    lemma_times_add(opened.effects + lived, released, message);
    lemma_times_add(opened.effects, lived, message);
    lemma_never(opened.effects, news);
    lemma_never(opened.effects, message);
    lemma_never(released, news);
    if released.len() > 0 && room_id == id {
        lemma_once(released, 0);
    } else {
        lemma_never(released, message);
    }
}

} // verus!

//! Laws on leaving, calls, screen sharing, tracks and locations.

use super::Operation;
use crate::error::RoomError;
use crate::event::{EffectView, EventView};
use crate::identity::{
    decimal_digits, law_peer_identity_round_trip, peer_id_named, PeerId, PeerIdError,
};
use crate::media::{RemoteVideoTrackUpdateView, ScreenTrack, SubscribedTrackView};
use crate::model::{matched_len, RoomView, Step};
use crate::participant::{RemoteParticipantView, RemoteVideoTrack, UserView};
use crate::project::Project;
use crate::proto;
use vstd::prelude::*;

use super::frame::lemma_track_update;
use super::lemma_finish_room_update;

verus! {

/// A room that has just been left is empty, and leaving it again is refused and
/// changes nothing.
pub proof fn law_left_room_is_empty<F, T, P>(room: RoomView<F, T, P>)
    requires
        room.status is Online,
    ensures
        ({
            let step = room.leave();
            &&& step.result is Ok
            &&& step.room.status is Offline
            &&& step.room.remote_participants == Map::<PeerId, RemoteParticipantView<F, T>>::empty()
            &&& step.room.pending_participants == Seq::<UserView>::empty()
            &&& forall|user_id: u64| !step.room.participant_user_ids.contains(user_id)
            &&& !step.room.is_screen_sharing()
            &&& step.room.leave() == step.room.unchanged(Err::<(), RoomError>(RoomError::Offline))
        }),
{
}

/// A room that has been left refuses to be left, to call, to change the location
/// and to share or unshare the screen, with one and the same error, and none of
/// that changes it.
pub proof fn law_left_room_refuses<F, T, P>(
    room: RoomView<F, T, P>,
    recipient_user_id: u64,
    initial_project_id: Option<u64>,
    project: Option<Project>,
)
    requires
        room.status is Offline,
    ensures
        room.leave() == room.unchanged(Err::<(), RoomError>(RoomError::Offline)),
        room.call(recipient_user_id, initial_project_id) == room.unchanged(
            Err::<proto::Call, RoomError>(RoomError::Offline),
        ),
        room.set_location(project) == room.unchanged(
            Err::<proto::UpdateParticipantLocation, RoomError>(RoomError::Offline),
        ),
        room.share_screen() == room.unchanged(Err::<usize, RoomError>(RoomError::Offline)),
        room.unshare_screen() == room.unchanged(Err::<(), RoomError>(RoomError::Offline)),
{
}

/// Nobody enters a room that has been left, unless an update was under way then
/// and is finished, and names somebody.
pub proof fn law_left_room_stays_empty<F, T, P>(
    room: RoomView<F, T, P>,
    operation: Operation<F, T, P>,
)
    requires
        room.status is Offline,
        room.remote_participants == Map::<PeerId, RemoteParticipantView<F, T>>::empty(),
        room.pending_participants == Seq::<UserView>::empty(),
        room.participant_user_ids == Set::<u64>::empty(),
        room.admits(operation),
        operation matches Operation::FinishRoomUpdate { remote_users, pending_users, .. } ==> {
            &&& remote_users matches Some(users) ==> matched_len(
                room.pending_room_update->0.participants,
                users,
            ) == 0
            &&& pending_users matches Some(users) ==> users.len() == 0
        },
    ensures
        ({
            let after = room.perform(operation).room;
            &&& after.remote_participants == Map::<PeerId, RemoteParticipantView<F, T>>::empty()
            &&& after.pending_participants == Seq::<UserView>::empty()
            &&& after.participant_user_ids == Set::<u64>::empty()
        }),
{
    let after = room.perform(operation).room;
    assert(after.remote_participants =~= Map::<PeerId, RemoteParticipantView<F, T>>::empty());
    assert(after.participant_user_ids =~= Set::<u64>::empty());
}

/// The room is not left while a call is under way, but on request.
pub proof fn law_room_is_kept_during_calls<F, T, P>(
    room: RoomView<F, T, P>,
    operation: Operation<F, T, P>,
)
    requires
        room.admits(operation),
        room.pending_call_count > if operation is CallFinished {
            1int
        } else {
            0
        },
        !(operation is Leave),
    ensures
        room.perform(operation).room.status == room.status,
{
    match operation {
        Operation::FinishRoomUpdate { remote_users, pending_users, tracks } => {
            lemma_finish_room_update(room, remote_users, pending_users, tracks);
        },
        Operation::TrackUpdated(update) => {
            lemma_track_update(room, update);
        },
        _ => {},
    }
}

/// Nothing but calls and their answers changes the number of calls that have not been
/// answered. A call that is made adds one, and an answer takes one away.
pub proof fn law_only_calls_are_counted<F, T, P>(
    room: RoomView<F, T, P>,
    operation: Operation<F, T, P>,
)
    requires
        room.admits(operation),
    ensures
        room.perform(operation).room.pending_call_count == match operation {
            Operation::Call { .. } => room.pending_call_count + if room.status is Online {
                1int
            } else {
                0
            },
            Operation::FirstCall { shared_project, .. } => room.pending_call_count
                + if room.status is Online && !(shared_project matches Some(Err(_))) {
                1int
            } else {
                0
            },
            Operation::CallFinished(_) => room.pending_call_count - 1,
            _ => room.pending_call_count as int,
        },
{
    match operation {
        Operation::FinishRoomUpdate { remote_users, pending_users, tracks } => {
            lemma_finish_room_update(room, remote_users, pending_users, tracks);
        },
        Operation::TrackUpdated(update) => {
            lemma_track_update(room, update);
        },
        _ => {},
    }
}

/// Once a call has been answered, the room is as it was before the call, and the
/// answer is passed on.
pub proof fn law_answered_call_leaves_no_trace<F, T, P>(
    room: RoomView<F, T, P>,
    recipient_user_id: u64,
    initial_project_id: Option<u64>,
    answer: Result<(), RoomError>,
)
    requires
        room.sound(),
        room.status is Online,
        room.pending_call_count < usize::MAX,
    ensures
        ({
            let called = room.call(recipient_user_id, initial_project_id);
            &&& called.result == Ok::<proto::Call, RoomError>(
                proto::Call { room_id: room.id, recipient_user_id, initial_project_id },
            )
            &&& called.room.call_finished(answer) == room.unchanged(answer)
        }),
{
}

/// A new room is left when its first call has been answered and nobody is in it.
pub proof fn law_unanswered_room_is_left<F, T, P>(
    id: u64,
    live_kit_connection_info: Option<proto::LiveKitConnectionInfo>,
    recipient_user_id: u64,
    shared_project: Option<Result<u64, RoomError>>,
    answer: Result<(), RoomError>,
)
    requires
        !(shared_project matches Some(Err(_))),
    ensures
        ({
            let opened = RoomView::<F, T, P>::opened(id, live_kit_connection_info).room;
            let called = opened.first_call(recipient_user_id, shared_project);
            let finished = called.room.call_finished(answer);
            &&& called.result is Ok
            &&& finished.room.status is Offline
            &&& finished.result == answer
        }),
{
    let opened = RoomView::<F, T, P>::opened(id, live_kit_connection_info).room;
    assert(opened.remote_participants.dom() =~= Set::<PeerId>::empty());
}

/// Sharing the screen and then unsharing it leaves nothing but that the
/// publication id has been used up. In between, sharing it again is refused.
pub proof fn law_unsharing_undoes_sharing<F, T, P>(room: RoomView<F, T, P>)
    requires
        room.share_screen_refusal() is None,
        room.live_kit->0.next_publish_id < usize::MAX,
    ensures
        ({
            let shared = room.share_screen();
            let unshared = shared.room.unshare_screen();
            let next_publish_id = (room.live_kit->0.next_publish_id + 1) as usize;
            &&& shared.result == Ok::<usize, RoomError>(room.live_kit->0.next_publish_id)
            &&& shared.room.is_screen_sharing()
            &&& shared.room.share_screen() == shared.room.unchanged(
                Err::<usize, RoomError>(RoomError::ScreenAlreadyShared),
            )
            &&& unshared.result is Ok
            &&& !unshared.room.is_screen_sharing()
            &&& unshared.room == (RoomView {
                live_kit: Some(
                    crate::media::LiveKitRoom { next_publish_id, ..room.live_kit->0 },
                ),
                ..room
            })
        }),
{
}

/// A track that is published while it is waited for is shared, and is taken back
/// when the screen is unshared.
pub proof fn law_published_screen_is_shared<F, T, P>(room: RoomView<F, T, P>, publication: P)
    requires
        room.share_screen_refusal() is None,
        room.live_kit->0.next_publish_id < usize::MAX,
    ensures
        ({
            let shared = room.share_screen();
            let published = shared.room.screen_published(shared.result->Ok_0, Ok(publication));
            let unshared = published.room.unshare_screen();
            &&& published.result is Ok
            &&& published.room.is_screen_sharing()
            &&& published.room.live_kit->0.screen_track == ScreenTrack::Published(publication)
            &&& unshared.result is Ok
            &&& !unshared.room.is_screen_sharing()
            &&& unshared.effects == seq![
                EffectView::UnpublishTrack(publication),
                EffectView::Notify,
            ]
        }),
{
    let shared = room.share_screen();
    let published = shared.room.screen_published(shared.result->Ok_0, Ok(publication));
    let unshared = published.room.unshare_screen();
    assert(unshared.effects =~= seq![EffectView::UnpublishTrack(publication), EffectView::Notify]);
}

/// When a publication fails that is waited for, the error is passed on, and the
/// screen is not shared.
pub proof fn law_failed_publication_ends_sharing<F, T, P>(
    room: RoomView<F, T, P>,
    error: RoomError,
)
    requires
        room.share_screen_refusal() is None,
        room.live_kit->0.next_publish_id < usize::MAX,
    ensures
        ({
            let shared = room.share_screen();
            let failed = shared.room.screen_published(shared.result->Ok_0, Err(error));
            &&& failed.result == Err::<(), RoomError>(error)
            &&& !failed.room.is_screen_sharing()
        }),
{
}

impl<F, T, P> RoomView<F, T, P> {
    /// Whether the publication id has been given out and is not waited for.
    pub open spec fn has_retired(self, publish_id: usize) -> bool {
        &&& !self.awaits_publication(publish_id)
        &&& self.live_kit matches Some(live_kit) ==> publish_id < live_kit.next_publish_id
    }
}

/// Unsharing the screen while its publication is waited for retires the
/// publication.
pub proof fn law_unsharing_retires_the_publication<F, T, P>(
    room: RoomView<F, T, P>,
    publish_id: usize,
)
    requires
        room.sound(),
        room.status is Online,
        room.awaits_publication(publish_id),
    ensures
        room.unshare_screen().room.has_retired(publish_id),
{
}

/// A publication that is not waited for is never waited for again.
pub proof fn law_publications_stay_retired<F, T, P>(
    room: RoomView<F, T, P>,
    operation: Operation<F, T, P>,
    publish_id: usize,
)
    requires
        room.has_retired(publish_id),
        room.admits(operation),
    ensures
        room.perform(operation).room.has_retired(publish_id),
{
    match operation {
        Operation::FinishRoomUpdate { remote_users, pending_users, tracks } => {
            lemma_finish_room_update(room, remote_users, pending_users, tracks);
        },
        Operation::TrackUpdated(update) => {
            lemma_track_update(room, update);
        },
        _ => {},
    }
}

/// A track that is published when it is not waited for is taken back, and the room
/// stays as it is. So it does when such a publication fails.
pub proof fn law_retired_publication_is_taken_back<F, T, P>(
    room: RoomView<F, T, P>,
    publish_id: usize,
    publication: P,
    error: RoomError,
)
    requires
        room.has_retired(publish_id),
        room.live_kit is Some,
    ensures
        room.screen_published(publish_id, Ok(publication)) == (Step {
            result: Ok::<(), RoomError>(()),
            room,
            effects: seq![EffectView::UnpublishTrack(publication)],
        }),
        room.screen_published(publish_id, Err(error)) == room.unchanged(Ok::<(), RoomError>(())),
{
}

/// A track of a participant in the room reaches it, and is gone after it is
/// unsubscribed from.
pub proof fn law_unsubscribing_undoes_subscribing<F, T, P>(
    room: RoomView<F, T, P>,
    track: SubscribedTrackView<T>,
    peer_id: PeerId,
)
    requires
        peer_id_named(track.publisher_id) == Ok::<PeerId, PeerIdError>(peer_id),
        room.remote_participants.contains_key(peer_id),
    ensures
        ({
            let subscribed = room.remote_video_track_updated(
                RemoteVideoTrackUpdateView::Subscribed(track),
            );
            let unsubscribed = subscribed.room.remote_video_track_updated(
                RemoteVideoTrackUpdateView::Unsubscribed {
                    publisher_id: track.publisher_id,
                    track_id: track.sid,
                },
            );
            &&& subscribed.result is Ok
            &&& subscribed.room.remote_participants[peer_id].tracks[track.sid] == (
            RemoteVideoTrack::<F, T> { frame: None, live_kit_track: track.live_kit_track })
            &&& unsubscribed.result is Ok
            &&& unsubscribed.room == room.without_track(peer_id, track.sid)
            &&& !room.remote_participants[peer_id].tracks.contains_key(track.sid)
                ==> unsubscribed.room == room
        }),
{
    let subscribed = room.remote_video_track_updated(RemoteVideoTrackUpdateView::Subscribed(track));
    let unsubscribed = subscribed.room.remote_video_track_updated(
        RemoteVideoTrackUpdateView::Unsubscribed {
            publisher_id: track.publisher_id,
            track_id: track.sid,
        },
    );
    let tracks = room.remote_participants[peer_id].tracks;
    assert(unsubscribed.room.remote_participants[peer_id].tracks =~= tracks.remove(track.sid));
    assert(unsubscribed.room.remote_participants =~= room.without_track(
        peer_id,
        track.sid,
    ).remote_participants);
    if !tracks.contains_key(track.sid) {
        assert(tracks.remove(track.sid) =~= tracks);
        assert(unsubscribed.room.remote_participants =~= room.remote_participants);
    }
}

/// A track that was looked up under the name of a participant belongs to that
/// participant.
pub proof fn law_looked_up_track_is_accepted<F, T, P>(
    room: RoomView<F, T, P>,
    track: SubscribedTrackView<T>,
    peer_id: PeerId,
)
    requires
        track.publisher_id == decimal_digits(peer_id as nat),
        room.remote_participants.contains_key(peer_id),
    ensures
        ({
            let subscribed = room.remote_video_track_updated(
                RemoteVideoTrackUpdateView::Subscribed(track),
            );
            &&& subscribed.result is Ok
            &&& subscribed.room.remote_participants[peer_id].tracks.contains_key(track.sid)
        }),
{
    law_peer_identity_round_trip(peer_id);
}

/// The picture that was received last is the one that a track shows. The observers
/// are told of it, and it changes nothing else.
pub proof fn law_last_frame_is_shown<F, T, P>(
    room: RoomView<F, T, P>,
    peer_id: PeerId,
    track_id: Seq<char>,
    first: F,
    second: F,
)
    requires
        room.remote_participants.contains_key(peer_id),
        room.remote_participants[peer_id].tracks.contains_key(track_id),
    ensures
        ({
            let step = room.frame_received(peer_id, track_id, first);
            let track = step.room.remote_participants[peer_id].tracks[track_id];
            &&& !step.result
            &&& track.frame == Some(first)
            &&& track.live_kit_track
                == room.remote_participants[peer_id].tracks[track_id].live_kit_track
            &&& step.effects == seq![
                EffectView::<P>::Emit(EventView::Frame { participant_id: peer_id, track_id }),
            ]
            &&& step.room.frame_received(peer_id, track_id, second).room == room.frame_received(
                peer_id,
                track_id,
                second,
            ).room
        }),
{
    let step = room.frame_received(peer_id, track_id, first);
    let again = step.room.frame_received(peer_id, track_id, second).room;
    let once = room.frame_received(peer_id, track_id, second).room;
    assert(again.remote_participants[peer_id].tracks
        =~= once.remote_participants[peer_id].tracks);
    assert(again.remote_participants =~= once.remote_participants);
}

/// Once a track has been unsubscribed from, no more pictures of it are asked for.
pub proof fn law_no_frames_after_unsubscribing<F, T, P>(
    room: RoomView<F, T, P>,
    publisher_id: Seq<char>,
    peer_id: PeerId,
    track_id: Seq<char>,
    frame: F,
)
    requires
        peer_id_named(publisher_id) == Ok::<PeerId, PeerIdError>(peer_id),
    ensures
        ({
            let after = room.remote_video_track_updated(
                RemoteVideoTrackUpdateView::Unsubscribed { publisher_id, track_id },
            ).room;
            after.frame_received(peer_id, track_id, frame) == after.unchanged(true)
        }),
{
}

/// When the project on which the local participant works is shared, the room is
/// told that the participant works on a shared project.
pub proof fn law_sharing_moves_the_location<F, T, P>(
    room: RoomView<F, T, P>,
    unshared: Project,
    shared: Project,
    id: u64,
)
    requires
        room.status is Online,
        unshared.handle == shared.handle,
        unshared.remote_id is None,
        shared.remote_id == Some(id),
    ensures
        ({
            let located = room.set_location(Some(unshared));
            let moved = located.room.project_shared(shared);
            &&& located.result->Ok_0.location == Some(
                proto::ParticipantLocation { variant: Some(proto::LocationVariant::UnsharedProject) },
            )
            &&& moved.result == Ok::<Option<proto::UpdateParticipantLocation>, RoomError>(
                Some(
                    proto::UpdateParticipantLocation {
                        room_id: room.id,
                        location: Some(
                            proto::ParticipantLocation {
                                variant: Some(proto::LocationVariant::SharedProject { id }),
                            },
                        ),
                    },
                ),
            )
            &&& moved.room == located.room
        }),
{
}

/// When a project is shared on which the local participant does not work, nothing
/// happens.
pub proof fn law_sharing_elsewhere_moves_nothing<F, T, P>(
    room: RoomView<F, T, P>,
    project: Project,
)
    requires
        room.local_participant.active_project != Some(project.handle),
    ensures
        room.project_shared(project) == room.unchanged(
            Ok::<Option<proto::UpdateParticipantLocation>, RoomError>(None),
        ),
{
}

} // verus!

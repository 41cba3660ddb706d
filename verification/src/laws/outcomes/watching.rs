//! The video tracks of the other participants.

use crate::error::RoomError;
use crate::event::{Context, EffectView, EventView};
use crate::identity::{peer_id_named, PeerId};
use crate::media::RemoteVideoTrackUpdate;
use crate::model::RoomView;
use crate::participant::RemoteVideoTrack;
use crate::room::Room;
use crate::tracks::Sid;
use vstd::prelude::*;

verus! {

/// Whether the rooms differ in nothing but the track of the peer.
pub open spec fn differ_in_track<F, T, P>(
    before: RoomView<F, T, P>,
    after: RoomView<F, T, P>,
    peer_id: PeerId,
    track_id: Seq<char>,
) -> bool {
    let old_entry = before.remote_participants[peer_id];
    let new_entry = after.remote_participants[peer_id];
    &&& after == (RoomView { remote_participants: after.remote_participants, ..before })
    &&& forall|other: PeerId| #[trigger]
        after.remote_participants.contains_key(other) <==> before.remote_participants.contains_key(
            other,
        )
    &&& forall|other: PeerId|
        other != peer_id ==> #[trigger] after.remote_participants[other]
            == before.remote_participants[other]
    &&& new_entry.user == old_entry.user
    &&& new_entry.projects == old_entry.projects
    &&& new_entry.location == old_entry.location
    &&& forall|other: Seq<char>|
        other != track_id ==> (#[trigger] new_entry.tracks.contains_key(other)
            <==> old_entry.tracks.contains_key(other))
    &&& forall|other: Seq<char>|
        other != track_id ==> #[trigger] new_entry.tracks[other] == old_entry.tracks[other]
}

/// A track of any participant in the room is taken over, without a picture, in place of
/// an earlier one with its id. One that is unsubscribed from is gone. Nothing else
/// changes.
///
/// A track whose publisher is not named by a peer id, or is not in the room, is refused,
/// and nothing happens.
pub proof fn law_tracks_come_and_go<F, T, P>(
    room: &mut Room<F, T, P>,
    change: RemoteVideoTrackUpdate<T>,
    cx: &mut Context<P>,
    result: Result<(), RoomError>,
)
    requires
        call_ensures(Room::<F, T, P>::remote_video_track_updated, (room, change, cx), result),
    ensures
        ({
            let before = old(room)@;
            let after = final(room)@;
            let named = peer_id_named(
                match change {
                    RemoteVideoTrackUpdate::Subscribed(track) => track.publisher_id@,
                    RemoteVideoTrackUpdate::Unsubscribed { publisher_id, .. } => publisher_id@,
                },
            );
            let track_id = match change {
                RemoteVideoTrackUpdate::Subscribed(track) => track.sid@,
                RemoteVideoTrackUpdate::Unsubscribed { track_id, .. } => track_id@,
            };
            let peer_id = named->Ok_0;
            &&& named matches Err(error) ==> result == Err::<(), RoomError>(
                RoomError::InvalidPublisherId(error),
            )
            &&& named is Ok && !before.remote_participants.contains_key(peer_id) ==> result
                == Err::<(), RoomError>(
                if change is Subscribed {
                    RoomError::SubscribedToUnknownParticipant
                } else {
                    RoomError::UnsubscribedFromUnknownParticipant
                },
            )
            &&& result is Err ==> after == before && final(cx)@ == old(cx)@
            &&& named is Ok && before.remote_participants.contains_key(peer_id) ==> {
                let tracks = after.remote_participants[peer_id].tracks;
                &&& result is Ok
                &&& differ_in_track(before, after, peer_id, track_id)
                &&& tracks.contains_key(track_id) <==> change is Subscribed
                &&& change matches RemoteVideoTrackUpdate::Subscribed(track) ==> tracks[track_id]
                    == (RemoteVideoTrack::<F, T> {
                    frame: None,
                    live_kit_track: track.live_kit_track,
                })
                &&& final(cx)@ == old(cx)@.push(EffectView::Notify)
            }
        }),
{
    if result is Err {
        assert(final(cx)@ =~= old(cx)@);
    } else {
        assert(final(cx)@ =~= old(cx)@.push(EffectView::Notify));
    }
}

/// A picture of a track of anybody in the room is shown, the observers are told of it,
/// and nothing else changes. Where the track is gone nothing happens, and no more
/// pictures are asked for.
pub proof fn law_pictures_are_shown<F, T, P>(
    room: &mut Room<F, T, P>,
    peer_id: PeerId,
    track_id: &Sid,
    frame: F,
    cx: &mut Context<P>,
    done: bool,
)
    requires
        call_ensures(Room::<F, T, P>::frame_received, (room, peer_id, track_id, frame, cx), done),
    ensures
        ({
            let before = old(room)@;
            let after = final(room)@;
            let there = before.remote_participants.contains_key(peer_id)
                && before.remote_participants[peer_id].tracks.contains_key(track_id@);
            let track = after.remote_participants[peer_id].tracks[track_id@];
            &&& done <==> !there
            &&& there ==> {
                &&& differ_in_track(before, after, peer_id, track_id@)
                &&& after.remote_participants[peer_id].tracks.contains_key(track_id@)
                &&& track.frame == Some(frame)
                &&& track.live_kit_track
                    == before.remote_participants[peer_id].tracks[track_id@].live_kit_track
                &&& final(cx)@ == old(cx)@.push(
                    EffectView::Emit(
                        EventView::Frame { participant_id: peer_id, track_id: track_id@ },
                    ),
                )
            }
            &&& !there ==> after == before && final(cx)@ == old(cx)@
        }),
{
    if done {
        assert(final(cx)@ =~= old(cx)@);
    } else {
        assert(final(cx)@ =~= old(cx)@.push(
            EffectView::Emit(EventView::Frame { participant_id: peer_id, track_id: track_id@ }),
        ));
    }
}

} // verus!

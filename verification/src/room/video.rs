//! The video tracks of the other participants.

use super::Room;
use crate::error::RoomError;
use crate::event::{Context, Effect, Event};
use crate::identity::{parse_peer_id, PeerId};
use crate::media::{tracks_view, RemoteVideoTrackUpdate, SubscribedTrack};
use crate::participant::RemoteVideoTrack;
use crate::tracks::Sid;
use vstd::prelude::*;

verus! {

impl<F, T, P> Room<F, T, P> {
    /// Takes over a change to the tracks of a participant.
    pub fn remote_video_track_updated(
        &mut self,
        change: RemoteVideoTrackUpdate<T>,
        cx: &mut Context<P>,
    ) -> (result: Result<(), RoomError>)
        ensures
            old(self)@.remote_video_track_updated(change@).happened(
                result,
                final(self)@,
                old(cx)@,
                final(cx)@,
            ),
    {
        assert(cx@ =~= old(cx)@ + Seq::empty());
        match change {
            RemoteVideoTrackUpdate::Subscribed(track) => {
                let peer_id = match parse_peer_id(track.publisher_id.as_str()) {
                    Ok(peer_id) => peer_id,
                    Err(error) => {
                        return Err(RoomError::InvalidPublisherId(error));
                    },
                };
                let mut participant = match self.remote_participants.remove(&peer_id) {
                    Some(participant) => participant,
                    None => {
                        assert(self@ =~= old(self)@);
                        return Err(RoomError::SubscribedToUnknownParticipant);
                    },
                };
                participant.tracks.insert(
                    track.sid,
                    RemoteVideoTrack { frame: None, live_kit_track: track.live_kit_track },
                );
                self.remote_participants.insert(peer_id, participant);
            },
            RemoteVideoTrackUpdate::Unsubscribed { publisher_id, track_id } => {
                let peer_id = match parse_peer_id(publisher_id.as_str()) {
                    Ok(peer_id) => peer_id,
                    Err(error) => {
                        return Err(RoomError::InvalidPublisherId(error));
                    },
                };
                let mut participant = match self.remote_participants.remove(&peer_id) {
                    Some(participant) => participant,
                    None => {
                        assert(self@ =~= old(self)@);
                        return Err(RoomError::UnsubscribedFromUnknownParticipant);
                    },
                };
                participant.tracks.remove(&track_id);
                self.remote_participants.insert(peer_id, participant);
            },
        }
        cx.notify();
        let ghost step = old(self)@.remote_video_track_updated(change@);
        assert(self@ =~= step.room);
        assert(cx@ =~= old(cx)@ + step.effects);
        Ok(())
    }

    /// Takes over tracks one after the other. One that is refused is passed over, and
    /// why is logged.
    pub(super) fn subscribe_all(
        &mut self,
        tracks: Vec<SubscribedTrack<T>>,
        cx: &mut Context<P>,
    )
        ensures
            old(self)@.subscribe_all(tracks_view(tracks@)).happened(
                (),
                final(self)@,
                old(cx)@,
                final(cx)@,
            ),
    {
        let ghost all = tracks_view(tracks@);
        proof {
            assert(all.take(0) =~= Seq::empty());
            assert(cx@ =~= old(cx)@ + old(self)@.subscribe_all(all.take(0)).effects);
        }
        for track in it: tracks
            invariant
                it.seq() == tracks@,
                all == tracks_view(tracks@),
                self@ == old(self)@.subscribe_all(all.take(it.index())).room,
                cx@ == old(cx)@ + old(self)@.subscribe_all(all.take(it.index())).effects,
        {
            let ghost i = it.index();
            let ghost so_far = old(self)@.subscribe_all(all.take(i));
            proof {
                assert(all.take(i + 1).drop_last() =~= all.take(i));
                assert(all.take(i + 1).last() == track@);
            }
            let result = self.remote_video_track_updated(
                RemoteVideoTrackUpdate::Subscribed(track),
                cx,
            );
            if let Err(error) = result {
                cx.push(Effect::LogError(error));
            }
            assert(cx@ =~= old(cx)@ + old(self)@.subscribe_all(all.take(i + 1)).effects);
        }
        assert(all.take(all.len() as int) =~= all);
    }

    /// Takes over a picture of a track. The host stops reporting pictures of the
    /// track when it is gone.
    pub fn frame_received(
        &mut self,
        peer_id: PeerId,
        track_id: &Sid,
        frame: F,
        cx: &mut Context<P>,
    ) -> (done: bool)
        ensures
            old(self)@.frame_received(peer_id, track_id@, frame).happened(
                done,
                final(self)@,
                old(cx)@,
                final(cx)@,
            ),
    {
        assert(cx@ =~= old(cx)@ + Seq::empty());
        let mut participant = match self.remote_participants.remove(&peer_id) {
            Some(participant) => participant,
            None => {
                assert(self@ =~= old(self)@);
                return true;
            },
        };
        let ghost tracks = participant.tracks@;
        let done = match participant.tracks.remove(track_id) {
            Some(mut track) => {
                track.frame = Some(frame);
                participant.tracks.insert(track_id.clone(), track);
                assert(participant.tracks@ =~= tracks.insert(track_id@, track));
                cx.emit(Event::Frame { participant_id: peer_id, track_id: track_id.clone() });
                false
            },
            None => {
                assert(participant.tracks@ =~= tracks);
                true
            },
        };
        self.remote_participants.insert(peer_id, participant);
        let ghost step = old(self)@.frame_received(peer_id, track_id@, frame);
        assert(self@ =~= step.room);
        assert(cx@ =~= old(cx)@ + step.effects);
        done
    }
}

} // verus!

//! The room's side of the connection to the media server.

use crate::tracks::Sid;
use vstd::prelude::*;

verus! {

/// The state of screen sharing.
///
/// `P` is a track that the host has published.
#[derive(Debug, PartialEq, Eq)]
pub enum ScreenTrack<P> {
    /// The screen is not shared.
    NotShared,
    /// A track is about to be published.
    Pending { publish_id: usize },
    /// The track is published.
    Published(P),
}

impl<P> Default for ScreenTrack<P> {
    fn default() -> (track: Self)
        ensures
            track == ScreenTrack::<P>::NotShared,
    {
        ScreenTrack::NotShared
    }
}

/// The room's record of its connection to the media server.
#[derive(Debug, PartialEq, Eq)]
pub struct LiveKitRoom<P> {
    pub screen_track: ScreenTrack<P>,
    pub next_publish_id: usize,
}

/// A video track of another participant that has been subscribed to.
///
/// `T` is what keeps the subscription alive.
#[derive(Debug, PartialEq, Eq)]
pub struct SubscribedTrack<T> {
    pub sid: Sid,
    pub publisher_id: String,
    pub live_kit_track: T,
}

/// The contents of a [`SubscribedTrack`].
#[verifier::ext_equal]
pub struct SubscribedTrackView<T> {
    pub sid: Seq<char>,
    pub publisher_id: Seq<char>,
    pub live_kit_track: T,
}

impl<T> View for SubscribedTrack<T> {
    type V = SubscribedTrackView<T>;

    open spec fn view(&self) -> SubscribedTrackView<T> {
        SubscribedTrackView {
            sid: self.sid@,
            publisher_id: self.publisher_id@,
            live_kit_track: self.live_kit_track,
        }
    }
}

/// The contents of a list of tracks.
pub open spec fn tracks_view<T>(tracks: Seq<SubscribedTrack<T>>) -> Seq<SubscribedTrackView<T>> {
    tracks.map_values(|t: SubscribedTrack<T>| t@)
}

/// The contents of lists of tracks.
pub open spec fn track_lists_view<T>(tracks: Seq<Vec<SubscribedTrack<T>>>) -> Seq<
    Seq<SubscribedTrackView<T>>,
> {
    tracks.map_values(|t: Vec<SubscribedTrack<T>>| tracks_view(t@))
}

/// A change to the video tracks of the other participants.
#[derive(Debug, PartialEq, Eq)]
pub enum RemoteVideoTrackUpdate<T> {
    Subscribed(SubscribedTrack<T>),
    Unsubscribed { publisher_id: String, track_id: Sid },
}

/// The contents of a [`RemoteVideoTrackUpdate`].
#[verifier::ext_equal]
pub enum RemoteVideoTrackUpdateView<T> {
    Subscribed(SubscribedTrackView<T>),
    Unsubscribed { publisher_id: Seq<char>, track_id: Seq<char> },
}

impl<T> View for RemoteVideoTrackUpdate<T> {
    type V = RemoteVideoTrackUpdateView<T>;

    open spec fn view(&self) -> RemoteVideoTrackUpdateView<T> {
        match *self {
            RemoteVideoTrackUpdate::Subscribed(track) => RemoteVideoTrackUpdateView::Subscribed(
                track@,
            ),
            RemoteVideoTrackUpdate::Unsubscribed { publisher_id, track_id } =>
                RemoteVideoTrackUpdateView::Unsubscribed {
                publisher_id: publisher_id@,
                track_id: track_id@,
            },
        }
    }
}

} // verus!

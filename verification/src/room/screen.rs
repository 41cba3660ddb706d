//! Sharing the screen of the local participant.

use super::Room;
use crate::error::RoomError;
use crate::event::{Context, Effect};
use crate::media::{LiveKitRoom, ScreenTrack};
use vstd::prelude::*;

verus! {

impl<F, T, P> Room<F, T, P> {
    /// Whether the screen is shared, or about to be.
    pub fn is_screen_sharing(&self) -> (sharing: bool)
        ensures
            sharing == self@.is_screen_sharing(),
    {
        match &self.live_kit {
            Some(live_kit) => !matches!(live_kit.screen_track, ScreenTrack::NotShared),
            None => false,
        }
    }

    /// The id that the next publication will have, if there is a connection to
    /// the media server.
    pub fn next_publish_id(&self) -> (publish_id: Option<usize>)
        ensures
            publish_id == match self@.live_kit {
                Some(live_kit) => Some(live_kit.next_publish_id),
                None => None,
            },
    {
        match &self.live_kit {
            Some(live_kit) => Some(live_kit.next_publish_id),
            None => None,
        }
    }

    /// Begins to share the screen.
    ///
    /// The host is to publish the display of [`Room::screen_to_publish`], and to
    /// report how that went to [`Room::screen_published`], with the id that is
    /// returned here.
    pub fn share_screen(&mut self, cx: &mut Context<P>) -> (result: Result<usize, RoomError>)
        requires
            old(self)@.share_screen_refusal() is None ==> old(self)@.live_kit->0.next_publish_id
                < usize::MAX,
        ensures
            old(self)@.share_screen().happened(result, final(self)@, old(cx)@, final(cx)@),
    {
        assert(cx@ =~= old(cx)@ + Seq::empty());
        if self.status.is_offline() {
            return Err(RoomError::Offline);
        } else if self.is_screen_sharing() {
            return Err(RoomError::ScreenAlreadyShared);
        }
        let publish_id: usize = match &self.live_kit {
            Some(live_kit) => live_kit.next_publish_id,
            None => {
                return Err(RoomError::LiveKitNotInitialized);
            },
        };
        self.live_kit = Some(
            LiveKitRoom {
                screen_track: ScreenTrack::Pending { publish_id },
                next_publish_id: publish_id + 1,
            },
        );
        cx.notify();
        assert(cx@ =~= old(cx)@ + old(self)@.share_screen().effects);
        Ok(publish_id)
    }

    /// The display to publish: the first of those that were found.
    pub fn screen_to_publish<D>(&self, displays: Result<Vec<D>, RoomError>) -> (result: Result<
        D,
        RoomError,
    >)
        ensures
            result == match displays {
                Err(error) => Err(error),
                Ok(displays) => if displays@.len() == 0 {
                    Err(RoomError::NoDisplayFound)
                } else if self@.live_kit is None {
                    Err(RoomError::LiveKitNotInitialized)
                } else {
                    Ok::<D, RoomError>(displays@[0])
                },
            },
    {
        match displays {
            Err(error) => Err(error),
            Ok(mut displays) => {
                if displays.is_empty() {
                    return Err(RoomError::NoDisplayFound);
                }
                if self.live_kit.is_none() {
                    return Err(RoomError::LiveKitNotInitialized);
                }
                Ok(displays.swap_remove(0))
            },
        }
    }

    /// Takes note of how a publication went. One that is not waited for any more
    /// is taken back.
    pub fn screen_published(
        &mut self,
        publish_id: usize,
        publication: Result<P, RoomError>,
        cx: &mut Context<P>,
    ) -> (result: Result<(), RoomError>)
        ensures
            old(self)@.screen_published(publish_id, publication).happened(
                result,
                final(self)@,
                old(cx)@,
                final(cx)@,
            ),
    {
        assert(cx@ =~= old(cx)@ + Seq::empty());
        let mut live_kit = match self.live_kit.take() {
            Some(live_kit) => live_kit,
            None => {
                return Err(RoomError::LiveKitNotInitialized);
            },
        };
        let canceled = match &live_kit.screen_track {
            ScreenTrack::Pending { publish_id: current } => *current != publish_id,
            _ => true,
        };
        let result = match publication {
            Ok(publication) => {
                if canceled {
                    cx.push(Effect::UnpublishTrack(publication));
                } else {
                    live_kit.screen_track = ScreenTrack::Published(publication);
                    cx.notify();
                }
                Ok(())
            },
            Err(error) => {
                if canceled {
                    Ok(())
                } else {
                    live_kit.screen_track = ScreenTrack::NotShared;
                    cx.notify();
                    Err(error)
                }
            },
        };
        self.live_kit = Some(live_kit);
        assert(cx@ =~= old(cx)@ + old(self)@.screen_published(publish_id, publication).effects);
        result
    }

    /// Stops sharing the screen, or beginning to share it.
    pub fn unshare_screen(&mut self, cx: &mut Context<P>) -> (result: Result<(), RoomError>)
        ensures
            old(self)@.unshare_screen().happened(result, final(self)@, old(cx)@, final(cx)@),
    {
        assert(cx@ =~= old(cx)@ + Seq::empty());
        if self.status.is_offline() {
            return Err(RoomError::Offline);
        }
        let LiveKitRoom { screen_track, next_publish_id } = match self.live_kit.take() {
            Some(live_kit) => live_kit,
            None => {
                return Err(RoomError::LiveKitNotInitialized);
            },
        };
        self.live_kit = Some(
            LiveKitRoom { screen_track: ScreenTrack::default(), next_publish_id },
        );
        match screen_track {
            ScreenTrack::NotShared => Err(RoomError::ScreenNotShared),
            ScreenTrack::Pending { .. } => {
                cx.notify();
                assert(cx@ =~= old(cx)@ + old(self)@.unshare_screen().effects);
                Ok(())
            },
            ScreenTrack::Published(track) => {
                cx.push(Effect::UnpublishTrack(track));
                cx.notify();
                assert(cx@ =~= old(cx)@ + old(self)@.unshare_screen().effects);
                Ok(())
            },
        }
    }
}

} // verus!

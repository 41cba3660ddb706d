//! What a room tells its observers, and what it asks of its host.

use crate::error::RoomError;
use crate::identity::PeerId;
use crate::participant::{User, UserView};
use crate::proto::strings_view;
use crate::tracks::Sid;
use vstd::prelude::*;

verus! {

/// A change that the observers of a room are told of.
#[derive(Debug, PartialEq, Eq)]
pub enum Event {
    /// A track has a new picture.
    Frame { participant_id: PeerId, track_id: Sid },
    /// Another participant has shared a project.
    RemoteProjectShared { owner: User, project_id: u64, worktree_root_names: Vec<String> },
    /// Another participant no longer shares a project.
    RemoteProjectUnshared { project_id: u64 },
    /// The local participant has left the room.
    Left,
}

/// The contents of an [`Event`].
#[verifier::ext_equal]
pub enum EventView {
    Frame { participant_id: PeerId, track_id: Seq<char> },
    RemoteProjectShared {
        owner: UserView,
        project_id: u64,
        worktree_root_names: Seq<Seq<char>>,
    },
    RemoteProjectUnshared { project_id: u64 },
    Left,
}

impl View for Event {
    type V = EventView;

    open spec fn view(&self) -> EventView {
        match *self {
            Event::Frame { participant_id, track_id } => EventView::Frame {
                participant_id,
                track_id: track_id@,
            },
            Event::RemoteProjectShared { owner, project_id, worktree_root_names } =>
                EventView::RemoteProjectShared {
                owner: owner@,
                project_id,
                worktree_root_names: strings_view(worktree_root_names@),
            },
            Event::RemoteProjectUnshared { project_id } => EventView::RemoteProjectUnshared {
                project_id,
            },
            Event::Left => EventView::Left,
        }
    }
}

impl Clone for Event {
    fn clone(&self) -> (event: Self)
        ensures
            event@ == self@,
    {
        match self {
            Event::Frame { participant_id, track_id } => Event::Frame {
                participant_id: *participant_id,
                track_id: track_id.clone(),
            },
            Event::RemoteProjectShared { owner, project_id, worktree_root_names } => {
                let names = worktree_root_names.clone();
                assert(names@ =~= worktree_root_names@);
                Event::RemoteProjectShared {
                    owner: owner.clone(),
                    project_id: *project_id,
                    worktree_root_names: names,
                }
            },
            Event::RemoteProjectUnshared { project_id } => Event::RemoteProjectUnshared {
                project_id: *project_id,
            },
            Event::Left => Event::Left,
        }
    }
}

/// Something for the host of a room to do.
///
/// `P` is a track that the host has published.
#[derive(Debug, PartialEq, Eq)]
pub enum Effect<P> {
    /// Tell the observers that the room has changed.
    Notify,
    /// Tell the observers of an event.
    Emit(Event),
    /// Watch the connection to the server, with a `ConnectionMonitor`.
    WatchConnection,
    /// Connect to the media server, and report its track updates.
    ConnectLiveKit { server_url: String, token: String },
    /// Drop the connection to the media server.
    DisconnectLiveKit,
    /// Report the server's updates of the room.
    Subscribe,
    /// Stop reporting the server's updates of the room.
    Unsubscribe,
    /// Tell the server that the local participant leaves the room.
    LeaveRoom { room_id: u64 },
    /// Take back a published track.
    UnpublishTrack(P),
    /// Log an error that stops nothing.
    LogError(RoomError),
}

/// The contents of an [`Effect`].
#[verifier::ext_equal]
pub enum EffectView<P> {
    Notify,
    Emit(EventView),
    WatchConnection,
    ConnectLiveKit { server_url: Seq<char>, token: Seq<char> },
    DisconnectLiveKit,
    Subscribe,
    Unsubscribe,
    LeaveRoom { room_id: u64 },
    UnpublishTrack(P),
    LogError(RoomError),
}

impl<P> View for Effect<P> {
    type V = EffectView<P>;

    open spec fn view(&self) -> EffectView<P> {
        match *self {
            Effect::Notify => EffectView::Notify,
            Effect::Emit(event) => EffectView::Emit(event@),
            Effect::WatchConnection => EffectView::WatchConnection,
            Effect::ConnectLiveKit { server_url, token } => EffectView::ConnectLiveKit {
                server_url: server_url@,
                token: token@,
            },
            Effect::DisconnectLiveKit => EffectView::DisconnectLiveKit,
            Effect::Subscribe => EffectView::Subscribe,
            Effect::Unsubscribe => EffectView::Unsubscribe,
            Effect::LeaveRoom { room_id } => EffectView::LeaveRoom { room_id },
            Effect::UnpublishTrack(publication) => EffectView::UnpublishTrack(publication),
            Effect::LogError(error) => EffectView::LogError(error),
        }
    }
}

/// The contents of a list of effects.
pub open spec fn effects_view<P>(effects: Seq<Effect<P>>) -> Seq<EffectView<P>> {
    effects.map_values(|e: Effect<P>| e@)
}

/// Collects what a room asks of its host, in order.
#[derive(Debug)]
pub struct Context<P> {
    effects: Vec<Effect<P>>,
}

impl<P> View for Context<P> {
    type V = Seq<EffectView<P>>;

    closed spec fn view(&self) -> Seq<EffectView<P>> {
        effects_view(self.effects@)
    }
}

impl<P> Context<P> {
    /// A context in which nothing has been asked for.
    pub fn new() -> (cx: Self)
        ensures
            cx@ == Seq::<EffectView<P>>::empty(),
    {
        let cx = Context { effects: Vec::new() };
        assert(cx@ =~= Seq::<EffectView<P>>::empty());
        cx
    }

    /// Asks for `effect`, after all that was asked for before.
    pub fn push(&mut self, effect: Effect<P>)
        ensures
            final(self)@ == old(self)@.push(effect@),
    {
        self.effects.push(effect);
        assert(self@ =~= old(self)@.push(effect@));
    }

    /// Asks the host to tell the observers that the room has changed.
    pub fn notify(&mut self)
        ensures
            final(self)@ == old(self)@.push(EffectView::Notify),
    {
        self.push(Effect::Notify);
    }

    /// Asks the host to tell the observers of `event`.
    pub fn emit(&mut self, event: Event)
        ensures
            final(self)@ == old(self)@.push(EffectView::Emit(event@)),
    {
        self.push(Effect::Emit(event));
    }

    /// All that was asked for, in order.
    pub fn into_effects(self) -> (effects: Vec<Effect<P>>)
        ensures
            effects_view(effects@) == self@,
    {
        self.effects
    }
}

} // verus!

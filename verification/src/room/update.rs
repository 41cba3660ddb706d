//! Updates of the room by the server.

use super::{remote_view, PendingRoomUpdate, Room};
use crate::error::RoomError;
use crate::event::{Context, EffectView, Event};
use crate::identity::{peer_identity, PeerId};
use crate::media::{track_lists_view, tracks_view, SubscribedTrack};
use crate::model::{
    announced_update, departure_effects, first_sighting, local_index, matched_len, newly_shared,
    no_longer_shared, peer_id_bound, shared_effects, tracks_at, unshared_effects, RoomView,
    UserFetchView,
};
use crate::participant::{
    user_ids, users_view, ParticipantLocation, RemoteParticipant, RemoteParticipantView, User,
    UserView,
};
use crate::proto;
use crate::proto::{
    participant_user_ids, participants_view, project_ids, projects_view, ParticipantProject,
};
use crate::tracks::TrackMap;
use std::collections::{BTreeMap, HashSet};
use vstd::prelude::*;
use vstd::std_specs::btree::{increasing_seq, spec_btree_map_iter};
use vstd::std_specs::cmp::OrdSpec;
use vstd::std_specs::iter::IteratorSpec;

verus! {

/// The users to fetch for an update of the room.
#[derive(Debug, PartialEq, Eq)]
pub struct UserFetch {
    pub remote_user_ids: Vec<u64>,
    pub pending_user_ids: Vec<u64>,
}

impl View for UserFetch {
    type V = UserFetchView;

    open spec fn view(&self) -> UserFetchView {
        UserFetchView {
            remote_user_ids: self.remote_user_ids@,
            pending_user_ids: self.pending_user_ids@,
        }
    }
}

/// The contents of a list of users that may be missing.
pub open spec fn fetched_view(users: Option<Vec<User>>) -> Option<Seq<UserView>> {
    match users {
        Some(users) => Some(users_view(users@)),
        None => None,
    }
}

/// The contents of a list of names that may be missing.
pub open spec fn queries_view(queries: Seq<Option<String>>) -> Seq<Option<Seq<char>>> {
    queries.map_values(
        |query: Option<String>|
            match query {
                Some(name) => Some(name@),
                None => None,
            },
    )
}

/// The contents of what [`Room::handle_room_updated`] returns.
pub open spec fn fetch_result_view(result: Result<UserFetch, RoomError>) -> Result<
    UserFetchView,
    RoomError,
> {
    match result {
        Ok(fetch) => Ok(fetch@),
        Err(error) => Err(error),
    }
}

/// The position of the first participant who is the user.
fn position_of_user(participants: &Vec<proto::Participant>, user_id: u64) -> (position: Option<
    usize,
>)
    ensures
        match position {
            Some(i) => local_index(participants_view(participants@), Some(user_id)) == Some(
                i as int,
            ) && i < participants@.len(),
            None => local_index(participants_view(participants@), Some(user_id)) is None,
        },
{
    let ghost ids = participant_user_ids(participants_view(participants@));
    proof {
        ids.index_of_first_ensures(user_id);
    }
    let mut i: usize = 0;
    while i < participants.len()
        invariant
            i <= participants@.len(),
            ids == participant_user_ids(participants_view(participants@)),
            forall|j: int| 0 <= j < i ==> #[trigger] ids[j] != user_id,
        decreases participants@.len() - i,
    {
        assert(ids[i as int] == participants@[i as int].user_id);
        if participants[i].user_id == user_id {
            proof {
                ids.index_of_first_ensures(user_id);
                assert(ids.contains(user_id));
            }
            return Some(i);
        }
        i += 1;
    }
    None
}

/// The user ids of the participants.
fn user_ids_of(participants: &Vec<proto::Participant>) -> (ids: Vec<u64>)
    ensures
        ids@ == participant_user_ids(participants_view(participants@)),
{
    let mut ids: Vec<u64> = Vec::new();
    let mut i: usize = 0;
    while i < participants.len()
        invariant
            i <= participants@.len(),
            ids@ =~= participant_user_ids(participants_view(participants@)).take(i as int),
        decreases participants@.len() - i,
    {
        ids.push(participants[i].user_id);
        i += 1;
    }
    ids
}

/// Whether a participant before the one at `n` has the same peer id.
fn seen_before(participants: &Vec<proto::Participant>, n: usize) -> (seen: bool)
    requires
        n < participants@.len(),
    ensures
        seen == !first_sighting(participants_view(participants@), n as int),
{
    let ghost all = participants_view(participants@);
    let mut i: usize = 0;
    while i < n
        invariant
            i <= n < participants@.len(),
            all == participants_view(participants@),
            forall|j: int| 0 <= j < i ==> all[j].peer_id != all[n as int].peer_id,
        decreases n - i,
    {
        assert(all[i as int].peer_id == participants@[i as int].peer_id);
        assert(all[n as int].peer_id == participants@[n as int].peer_id);
        if participants[i].peer_id == participants[n].peer_id {
            return true;
        }
        i += 1;
    }
    false
}

/// The ids of the projects.
fn project_id_set(projects: &Vec<ParticipantProject>) -> (ids: HashSet<u64>)
    ensures
        ids@ == project_ids(projects_view(projects@)).to_set(),
{
    let mut ids: HashSet<u64> = HashSet::new();
    let mut i: usize = 0;
    let ghost all = project_ids(projects_view(projects@));
    while i < projects.len()
        invariant
            i <= projects@.len(),
            all == project_ids(projects_view(projects@)),
            ids@ == all.take(i as int).to_set(),
        decreases projects@.len() - i,
    {
        ids.insert(projects[i].id);
        proof {
            assert(all.take(i + 1) =~= all.take(i as int).push(projects@[i as int].id));
            assert(all.take(i + 1).to_set() =~= all.take(i as int).to_set().insert(
                projects@[i as int].id,
            )) by {
                assert forall|id: u64| #[trigger]
                    all.take(i as int).to_set().insert(
                        projects@[i as int].id,
                    ).contains(id) implies all.take(i + 1).contains(id) by {
                    if id == projects@[i as int].id {
                        assert(all.take(i + 1)[i as int] == id);
                    } else {
                        let j = choose|j: int|
                            0 <= j < all.take(i as int).len() && all.take(i as int)[j] == id;
                        assert(all.take(i + 1)[j] == id);
                    }
                }
            }
        }
        i += 1;
    }
    assert(all.take(i as int) =~= all);
    ids
}

/// Tells the observers which projects `owner` now shares and which no longer.
fn announce_projects<P>(
    owner: &User,
    earlier: &Vec<ParticipantProject>,
    current: &Vec<ParticipantProject>,
    cx: &mut Context<P>,
)
    ensures
        final(cx)@ == old(cx)@ + shared_effects::<P>(
            owner@,
            newly_shared(projects_view(earlier@), projects_view(current@)),
        ) + unshared_effects::<P>(
            no_longer_shared(projects_view(earlier@), projects_view(current@)),
        ),
{
    let earlier_ids = project_id_set(earlier);
    let current_ids = project_id_set(current);
    let ghost earlier_view = projects_view(earlier@);
    let ghost current_view = projects_view(current@);
    let ghost before = cx@;
    let mut i: usize = 0;
    proof {
        assert(current_view.take(0) =~= Seq::empty());
        assert(newly_shared(earlier_view, current_view.take(0)) =~= Seq::empty()) by {
            reveal(Seq::filter);
        }
        assert(cx@ =~= before + shared_effects::<P>(
            owner@,
            newly_shared(earlier_view, current_view.take(0)),
        ));
    }
    while i < current.len()
        invariant
            i <= current@.len(),
            earlier_view == projects_view(earlier@),
            current_view == projects_view(current@),
            earlier_ids@ == project_ids(earlier_view).to_set(),
            cx@ == before + shared_effects::<P>(
                owner@,
                newly_shared(earlier_view, current_view.take(i as int)),
            ),
        decreases current@.len() - i,
    {
        let project = &current[i];
        let ghost so_far = newly_shared(earlier_view, current_view.take(i as int));
        proof {
            reveal(Seq::filter);
            assert(current_view.take(i + 1).drop_last() =~= current_view.take(i as int));
            assert(current_view.take(i + 1).last() == project@);
        }
        if !earlier_ids.contains(&project.id) {
            let names = project.worktree_root_names.clone();
            proof {
                assert(names@ =~= project.worktree_root_names@);
                assert(newly_shared(earlier_view, current_view.take(i + 1)) =~= so_far.push(
                    project@,
                ));
            }
            cx.emit(
                Event::RemoteProjectShared {
                    owner: owner.clone(),
                    project_id: project.id,
                    worktree_root_names: names,
                },
            );
            assert(cx@ =~= before + shared_effects::<P>(owner@, so_far.push(project@)));
        } else {
            assert(newly_shared(earlier_view, current_view.take(i + 1)) =~= so_far);
        }
        i += 1;
    }
    assert(current_view.take(i as int) =~= current_view);
    let ghost middle = cx@;
    let mut gone: HashSet<u64> = HashSet::new();
    let mut j: usize = 0;
    proof {
        assert(earlier_view.take(0) =~= Seq::empty());
        assert(cx@ =~= middle + unshared_effects::<P>(
            no_longer_shared(earlier_view.take(0), current_view),
        ));
        assert(gone@ =~= no_longer_shared(earlier_view.take(0), current_view).to_set());
    }
    while j < earlier.len()
        invariant
            j <= earlier@.len(),
            earlier_view == projects_view(earlier@),
            current_view == projects_view(current@),
            current_ids@ == project_ids(current_view).to_set(),
            gone@ == no_longer_shared(earlier_view.take(j as int), current_view).to_set(),
            cx@ == middle + unshared_effects::<P>(
                no_longer_shared(earlier_view.take(j as int), current_view),
            ),
        decreases earlier@.len() - j,
    {
        let id: u64 = earlier[j].id;
        let ghost so_far = no_longer_shared(earlier_view.take(j as int), current_view);
        proof {
            assert(earlier_view.take(j + 1).drop_last() =~= earlier_view.take(j as int));
            assert(earlier_view.take(j + 1).last().id == id);
        }
        if !current_ids.contains(&id) && gone.insert(id) {
            cx.emit(Event::RemoteProjectUnshared { project_id: id });
            proof {
                assert(cx@ =~= middle + unshared_effects::<P>(so_far.push(id)));
                assert(so_far.push(id).to_set() =~= so_far.to_set().insert(id)) by {
                    so_far.lemma_push_to_set_commute(id);
                }
            }
        } else {
            assert(so_far.to_set().insert(id) =~= so_far.to_set() || project_ids(
                current_view,
            ).contains(id));
        }
        j += 1;
    }
    assert(earlier_view.take(j as int) =~= earlier_view);
}

/// Whether `keys` are the keys of `m` in ascending order.
pub open spec fn ascending_keys<V>(keys: Seq<PeerId>, m: Map<PeerId, V>) -> bool {
    &&& forall|i: int, j: int| 0 <= i < j < keys.len() ==> keys[i] < keys[j]
    &&& forall|i: int| 0 <= i < keys.len() ==> m.contains_key(#[trigger] keys[i])
    &&& forall|key: PeerId| #[trigger] m.contains_key(key) ==> keys.contains(key)
}

/// The keys of `m` in ascending order.
pub(super) fn peer_ids<V>(m: &BTreeMap<PeerId, V>) -> (keys: Vec<PeerId>)
    ensures
        ascending_keys(keys@, m@),
{
    let mut keys: Vec<PeerId> = Vec::new();
    for kv in it: m.iter()
        invariant
            it.seq() == spec_btree_map_iter(m).remaining(),
            increasing_seq(it.seq().map_values(|kv: (&PeerId, &V)| *kv.0)),
            keys@ =~= it.seq().take(it.index()).map_values(|kv: (&PeerId, &V)| *kv.0),
    {
        keys.push(*kv.0);
    }
    proof {
        let entries = spec_btree_map_iter(m).remaining();
        assert(keys@ =~= entries.map_values(|kv: (&PeerId, &V)| *kv.0));
        assert(increasing_seq(keys@));
        assert forall|i: int, j: int| 0 <= i < j < keys@.len() implies keys@[i] < keys@[j] by {
            assert(keys@[i].cmp_spec(&keys@[j]) is Less);
        }
        assert forall|i: int| 0 <= i < keys@.len() implies m@.contains_key(
            #[trigger] keys@[i],
        ) by {
            assert(m@.contains_key(*entries[i].0));
        }
        assert forall|key: PeerId| #[trigger] m@.contains_key(key) implies keys@.contains(key) by {
            let i = choose|i: int|
                0 <= i < entries.len() && entries[i] == (&key, &m@[key]);
            assert(keys@[i] == key);
        }
    }
    keys
}

/// Tells the observers that `projects` are no longer shared.
fn announce_unshared<P>(projects: &Vec<ParticipantProject>, cx: &mut Context<P>)
    ensures
        final(cx)@ == old(cx)@ + unshared_effects::<P>(project_ids(projects_view(projects@))),
{
    let ghost ids = project_ids(projects_view(projects@));
    let mut i: usize = 0;
    assert(cx@ =~= old(cx)@ + unshared_effects::<P>(ids.take(0)));
    while i < projects.len()
        invariant
            i <= projects@.len(),
            ids == project_ids(projects_view(projects@)),
            cx@ == old(cx)@ + unshared_effects::<P>(ids.take(i as int)),
        decreases projects@.len() - i,
    {
        cx.emit(Event::RemoteProjectUnshared { project_id: projects[i].id });
        proof {
            assert(ids.take(i + 1) =~= ids.take(i as int).push(projects@[i as int].id));
            assert(cx@ =~= old(cx)@ + unshared_effects::<P>(ids.take(i + 1)));
        }
        i += 1;
    }
    assert(ids.take(i as int) =~= ids);
}

/// No effects come from peer ids that nobody has.
proof fn lemma_no_departures<F, T, P>(
    participants: Map<PeerId, RemoteParticipantView<F, T>>,
    present: Set<u64>,
    low: nat,
    high: nat,
)
    requires
        low <= high <= peer_id_bound(),
        forall|k: PeerId| low <= k < high ==> !participants.contains_key(k),
    ensures
        departure_effects::<F, T, P>(participants, present, high) == departure_effects::<F, T, P>(
            participants,
            present,
            low,
        ),
    decreases high - low,
{
    if low < high {
        lemma_no_departures::<F, T, P>(participants, present, low, (high - 1) as nat);
    }
}

impl<F, T, P> Room<F, T, P> {
    /// Removes the participants whose user is not in the room any more.
    fn remove_absentees(&mut self, cx: &mut Context<P>)
        ensures
            old(self)@.remove_absentees().happened((), final(self)@, old(cx)@, final(cx)@),
    {
        let peer_ids = peer_ids(&self.remote_participants);
        let ghost entries = self.remote_participants@;
        let ghost participants = self@.remote_participants;
        let ghost present = self.participant_user_ids@;
        let ghost mut bound: nat = 0;
        let mut i: usize = 0;
        assert(cx@ =~= old(cx)@ + departure_effects::<F, T, P>(participants, present, bound));
        while i < peer_ids.len()
            invariant
                i <= peer_ids@.len(),
                ascending_keys(peer_ids@, entries),
                bound == if i == 0 {
                    0
                } else {
                    peer_ids@[i - 1] + 1
                },
                participants == remote_view(entries),
                participants == old(self)@.remote_participants,
                present == old(self)@.participant_user_ids,
                self.participant_user_ids@ == present,
                self@ == (RoomView {
                    remote_participants: self@.remote_participants,
                    ..old(self)@
                }),
                forall|k: PeerId| #[trigger]
                    self.remote_participants@.contains_key(k) <==> entries.contains_key(k) && (
                    bound <= k || present.contains(entries[k].user.id)),
                forall|k: PeerId| #[trigger]
                    self.remote_participants@.contains_key(k) ==> self.remote_participants@[k]
                        == entries[k],
                cx@ == old(cx)@ + departure_effects::<F, T, P>(participants, present, bound),
            decreases peer_ids@.len() - i,
        {
            let peer_id: PeerId = peer_ids[i];
            let ghost so_far = departure_effects::<F, T, P>(participants, present, bound);
            proof {
                assert forall|k: PeerId| bound <= k < peer_id implies !participants.contains_key(
                    k,
                ) by {
                    if entries.contains_key(k) {
                        let j = choose|j: int| 0 <= j < peer_ids@.len() && peer_ids@[j] == k;
                        assert(i <= j);
                    }
                }
                lemma_no_departures::<F, T, P>(participants, present, bound, peer_id as nat);
                assert(self.remote_participants@.contains_key(peer_id));
            }
            let absent = match self.remote_participants.get(&peer_id) {
                Some(participant) => !self.participant_user_ids.contains(&participant.user.id),
                None => false,
            };
            if absent {
                if let Some(participant) = self.remote_participants.remove(&peer_id) {
                    announce_unshared(&participant.projects, cx);
                }
                assert(cx@ =~= old(cx)@ + (so_far + unshared_effects::<P>(
                    project_ids(participants[peer_id].projects),
                )));
            }
            proof {
                bound = (peer_id + 1) as nat;
            }
            i += 1;
        }
        proof {
            assert forall|k: PeerId| bound <= k < peer_id_bound() implies !participants.contains_key(
                k,
            ) by {
                if entries.contains_key(k) {
                    let j = choose|j: int| 0 <= j < peer_ids@.len() && peer_ids@[j] == k;
                    assert(peer_ids@[j] <= peer_ids@[i - 1]);
                }
            }
            lemma_no_departures::<F, T, P>(participants, present, bound, peer_id_bound());
            assert(self@.remote_participants =~= old(self)@.without_absentees().remote_participants)
                by {
                assert forall|k: PeerId| #[trigger]
                    self.remote_participants@.contains_key(k) implies present.contains(
                    entries[k].user.id,
                ) by {
                    if entries.contains_key(k) && bound <= k {
                        assert(participants.contains_key(k));
                    }
                }
            }
        }
    }

    /// Takes over one participant of an update. `tracks` are the tracks that it
    /// publishes.
    fn apply_participant(
        &mut self,
        participant: proto::Participant,
        user: &User,
        tracks: Vec<SubscribedTrack<T>>,
        cx: &mut Context<P>,
    )
        ensures
            old(self)@.apply_participant(participant@, user@, tracks_view(tracks@)).happened(
                (),
                final(self)@,
                old(cx)@,
                final(cx)@,
            ),
    {
        let ghost seen = participant@;
        let proto::Participant { user_id, peer_id, projects, location } = participant;
        self.participant_user_ids.insert(user_id);
        let location = match ParticipantLocation::from_proto(location) {
            Ok(location) => location,
            Err(_) => ParticipantLocation::External,
        };
        match self.remote_participants.remove(&peer_id) {
            Some(mut entry) => {
                announce_projects(user, &entry.projects, &projects, cx);
                entry.projects = projects;
                entry.location = location;
                self.remote_participants.insert(peer_id, entry);
                proof {
                    assert(self@ =~= old(self)@.with_participant(seen, user@));
                    assert(cx@ =~= old(cx)@ + (old(self)@.project_effects(seen, user@)
                        + Seq::empty()));
                }
            },
            None => {
                announce_projects(user, &Vec::new(), &projects, cx);
                self.remote_participants.insert(
                    peer_id,
                    RemoteParticipant {
                        user: user.clone(),
                        projects,
                        location,
                        tracks: TrackMap::new(),
                    },
                );
                proof {
                    assert(projects_view(Seq::<ParticipantProject>::empty()) =~= Seq::empty());
                    assert(self@ =~= old(self)@.with_participant(seen, user@));
                    assert(cx@ =~= old(cx)@ + old(self)@.project_effects(seen, user@));
                }
                if self.live_kit.is_some() {
                    self.subscribe_all(tracks, cx);
                }
                let ghost step = old(self)@.apply_participant(seen, user@, tracks_view(tracks@));
                assert(cx@ =~= old(cx)@ + step.effects);
            },
        }
    }

    /// Takes over the first participants of an update, as many as there are
    /// users for.
    fn apply_participants(
        &mut self,
        participants: Vec<proto::Participant>,
        users: &Vec<User>,
        tracks: Vec<Vec<SubscribedTrack<T>>>,
        cx: &mut Context<P>,
    )
        ensures
            old(self)@.apply_participants(
                participants_view(participants@),
                users_view(users@),
                track_lists_view(tracks@),
                matched_len(participants_view(participants@), users_view(users@)),
            ).happened((), final(self)@, old(cx)@, final(cx)@),
    {
        let ghost seen = participants_view(participants@);
        let ghost known = users_view(users@);
        let ghost published = track_lists_view(tracks@);
        let ghost before = self@;
        let ghost n = matched_len(seen, known);
        let mut tracks = tracks;
        let mut i: usize = 0;
        assert(cx@ =~= old(cx)@ + before.apply_participants(seen, known, published, 0).effects);
        for participant in it: participants
            invariant
                it.seq() == participants@,
                seen == participants_view(participants@),
                known == users_view(users@),
                n == matched_len(seen, known),
                i == if it.index() <= n {
                    it.index()
                } else {
                    n as int
                },
                tracks@.len() == published.len(),
                forall|j: int|
                    i <= j < published.len() ==> tracks_view(#[trigger] tracks@[j]@)
                        == published[j],
                self@ == before.apply_participants(seen, known, published, i as nat).room,
                cx@ == old(cx)@ + before.apply_participants(
                    seen,
                    known,
                    published,
                    i as nat,
                ).effects,
        {
            if i < users.len() {
                let mut own_tracks: Vec<SubscribedTrack<T>> = Vec::new();
                if i < tracks.len() {
                    std::mem::swap(&mut own_tracks, &mut tracks[i]);
                }
                proof {
                    assert(tracks_view(own_tracks@) =~= tracks_at(published, i as int));
                    assert(seen[i as int] == participant@);
                }
                self.apply_participant(participant, &users[i], own_tracks, cx);
                i += 1;
                assert(cx@ =~= old(cx)@ + before.apply_participants(
                    seen,
                    known,
                    published,
                    i as nat,
                ).effects);
            }
        }
    }

    /// Announces a change of the room, in place of one that still waits for its
    /// users, and returns the users to fetch for it.
    pub fn apply_room_update(
        &mut self,
        room: proto::Room,
        local_user_id: Option<u64>,
        cx: &mut Context<P>,
    ) -> (fetch: UserFetch)
        ensures
            old(self)@.apply_room_update(
                participants_view(room.participants@),
                room.pending_participant_user_ids@,
                local_user_id,
            ).happened(fetch@, final(self)@, old(cx)@, final(cx)@),
    {
        let ghost announced = participants_view(room.participants@);
        let mut participants = room.participants;
        // Filter ourselves out from the room's participants.
        let local_participant = match local_user_id {
            Some(user_id) => match position_of_user(&participants, user_id) {
                Some(i) => Some(participants.swap_remove(i)),
                None => None,
            },
            None => None,
        };
        let ghost update = announced_update(announced, local_user_id);
        assert(participants_view(participants@) =~= update.participants);
        let remote_user_ids = user_ids_of(&participants);
        self.pending_room_update = Some(PendingRoomUpdate { local_participant, participants });
        cx.notify();
        assert(cx@ =~= old(cx)@ + seq![EffectView::Notify]);
        UserFetch { remote_user_ids, pending_user_ids: room.pending_participant_user_ids }
    }

    /// Announces the change that the server gives notice of.
    pub fn handle_room_updated(
        &mut self,
        message: proto::RoomUpdated,
        local_user_id: Option<u64>,
        cx: &mut Context<P>,
    ) -> (result: Result<UserFetch, RoomError>)
        ensures
            old(self)@.handle_room_updated(message.room, local_user_id).happened(
                fetch_result_view(result),
                final(self)@,
                old(cx)@,
                final(cx)@,
            ),
    {
        match message.room {
            Some(room) => Ok(self.apply_room_update(room, local_user_id, cx)),
            None => {
                assert(cx@ =~= old(cx)@ + Seq::empty());
                Err(RoomError::InvalidRoom)
            },
        }
    }

    /// Whether an update of the room waits for its users.
    pub fn has_pending_room_update(&self) -> (pending: bool)
        ensures
            pending == (self@.pending_room_update is Some),
    {
        self.pending_room_update.is_some()
    }

    /// Under which name to look up the tracks of each participant of the update
    /// that waits for its users, once they have been fetched. There is a name for
    /// the new participants only.
    ///
    /// The host looks the tracks up at once, and finishes the update with what it
    /// finds.
    pub fn track_queries(&self, remote_users: &Option<Vec<User>>) -> (queries: Vec<Option<String>>)
        ensures
            queries_view(queries@) == self@.track_queries(fetched_view(*remote_users)),
    {
        let mut queries: Vec<Option<String>> = Vec::new();
        if let (Some(update), Some(users)) = (&self.pending_room_update, remote_users) {
            let participants = &update.participants;
            let ghost expected = self@.track_queries(fetched_view(*remote_users));
            let mut i: usize = 0;
            while i < participants.len() && i < users.len()
                invariant
                    self.pending_room_update == Some(*update),
                    *remote_users == Some(*users),
                    participants == &update.participants,
                    expected == self@.track_queries(fetched_view(*remote_users)),
                    i <= participants@.len(),
                    i <= users@.len(),
                    queries_view(queries@) == expected.take(i as int),
                    expected.len() == matched_len(
                        participants_view(participants@),
                        users_view(users@),
                    ),
                decreases participants@.len() - i,
            {
                let peer_id: PeerId = participants[i].peer_id;
                let query = if self.live_kit.is_some() && !self.remote_participants.contains_key(
                    &peer_id,
                ) && !seen_before(participants, i) {
                    Some(peer_identity(peer_id))
                } else {
                    None
                };
                let ghost so_far = queries_view(queries@);
                queries.push(query);
                proof {
                    assert(participants_view(participants@)[i as int].peer_id == peer_id);
                    assert(self@.remote_participants.contains_key(peer_id)
                        == self.remote_participants@.contains_key(peer_id));
                    assert(expected[i as int] == match query {
                        Some(name) => Some(name@),
                        None => None,
                    });
                    assert(queries_view(queries@) =~= so_far.push(expected[i as int]));
                    assert(expected.take(i + 1) =~= so_far.push(expected[i as int]));
                }
                i += 1;
            }
            assert(expected.take(i as int) =~= expected);
        } else {
            assert(queries_view(queries@) =~= Seq::empty());
        }
        queries
    }

    /// Takes over the update that waits for its users.
    ///
    /// A list of users is missing where it could not be fetched. `tracks` holds
    /// what the lookups of [`Room::track_queries`] found, list for list.
    pub fn finish_room_update(
        &mut self,
        remote_users: Option<Vec<User>>,
        pending_users: Option<Vec<User>>,
        tracks: Vec<Vec<SubscribedTrack<T>>>,
        cx: &mut Context<P>,
    )
        requires
            old(self)@.pending_room_update is Some,
        ensures
            old(self)@.finish_room_update(
                fetched_view(remote_users),
                fetched_view(pending_users),
                track_lists_view(tracks@),
            ).happened((), final(self)@, old(cx)@, final(cx)@),
    {
        let PendingRoomUpdate { local_participant, participants } =
            self.pending_room_update.take().unwrap();
        let ghost update = old(self)@.pending_room_update->0;
        self.participant_user_ids.clear();
        match local_participant {
            Some(participant) => {
                self.local_participant.projects = participant.projects;
            },
            None => {
                self.local_participant.projects.clear();
                assert(projects_view(self.local_participant.projects@) =~= Seq::empty());
            },
        }
        let ghost started = old(self)@.update_started(update.local_participant);
        assert(self@ =~= started);
        let ghost remote = started.take_remote_users(
            update.participants,
            fetched_view(remote_users),
            track_lists_view(tracks@),
        );
        assert(cx@ =~= old(cx)@ + Seq::empty());
        if let Some(users) = &remote_users {
            self.apply_participants(participants, users, tracks, cx);
            self.remove_absentees(cx);
        }
        assert(cx@ =~= old(cx)@ + remote.effects);
        if let Some(users) = pending_users {
            self.pending_participants = users;
            self.add_pending_user_ids();
        }
        let ghost called = remote.room.take_pending_users(fetched_view(pending_users));
        assert(self@ =~= called);
        if self.should_leave() {
            let _ = self.leave(cx);
        }
        cx.notify();
        assert(cx@ =~= old(cx)@ + (remote.effects + called.leave_if_empty().effects
            + seq![EffectView::Notify]));
    }

    /// Counts the users who are being called among those in the room.
    fn add_pending_user_ids(&mut self)
        ensures
            final(self)@ == (RoomView {
                participant_user_ids: old(self)@.participant_user_ids.union(
                    user_ids(old(self)@.pending_participants).to_set(),
                ),
                ..old(self)@
            }),
    {
        let ghost before = self.participant_user_ids@;
        let ghost ids = user_ids(self@.pending_participants);
        let mut i: usize = 0;
        assert(self.participant_user_ids@ =~= before.union(ids.take(0).to_set()));
        while i < self.pending_participants.len()
            invariant
                i <= self.pending_participants@.len(),
                ids == user_ids(self@.pending_participants),
                self.participant_user_ids@ == before.union(ids.take(i as int).to_set()),
                self@ == (RoomView {
                    participant_user_ids: self.participant_user_ids@,
                    ..old(self)@
                }),
            decreases self.pending_participants@.len() - i,
        {
            let id: u64 = self.pending_participants[i].id;
            self.participant_user_ids.insert(id);
            proof {
                assert(ids.take(i + 1) =~= ids.take(i as int).push(id));
                ids.take(i as int).lemma_push_to_set_commute(id);
                assert(self.participant_user_ids@ =~= before.union(ids.take(i + 1).to_set()));
            }
            i += 1;
        }
        assert(ids.take(i as int) =~= ids);
    }
}

} // verus!

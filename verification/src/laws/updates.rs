//! Laws on the updates of a room by the server.

use super::frame::{
    lemma_apply_participant, lemma_apply_participants, lemma_subscribe_all, same_but_tracks,
    sighted, sighted_user,
};
use super::lemma_finish_room_update;
use crate::event::EffectView;
use crate::identity::{decimal_digits, peer_id_named, PeerId, PeerIdError};
use crate::media::{RemoteVideoTrackUpdateView, SubscribedTrackView};
use crate::model::{
    announced_update, departure_effects, first_sighting, local_index, matched_len, peer_id_bound,
    swap_removed, tracks_at, RoomView,
};
use crate::participant::{
    user_ids, ParticipantLocation, RemoteParticipantView, RemoteVideoTrack, UserView,
};
use crate::proto::{participant_user_ids, ParticipantView};
use vstd::prelude::*;

verus! {

/// An update that still waits for its users has no effect once another one has
/// been announced.
pub proof fn law_later_update_supersedes<F, T, P>(
    room: RoomView<F, T, P>,
    earlier: Seq<ParticipantView>,
    earlier_pending: Seq<u64>,
    earlier_local: Option<u64>,
    later: Seq<ParticipantView>,
    later_pending: Seq<u64>,
    later_local: Option<u64>,
)
    ensures
        room.apply_room_update(
            earlier,
            earlier_pending,
            earlier_local,
        ).room.apply_room_update(later, later_pending, later_local) == room.apply_room_update(
            later,
            later_pending,
            later_local,
        ),
{
}

/// Setting the local user apart loses and adds nobody. Where the local user is
/// announced at most once, it is not fetched with the others.
pub proof fn law_local_user_is_set_apart(
    participants: Seq<ParticipantView>,
    local_user_id: Option<u64>,
)
    ensures
        ({
            let update = announced_update(participants, local_user_id);
            &&& match update.local_participant {
                Some(local) => {
                    &&& local_user_id == Some(local.user_id)
                    &&& participants.to_multiset() == update.participants.to_multiset().insert(
                        local,
                    )
                },
                None => {
                    &&& update.participants == participants
                    &&& forall|i: int|
                        0 <= i < participants.len() ==> local_user_id != Some(
                            (#[trigger] participants[i]).user_id,
                        )
                },
            }
            &&& (forall|i: int, j: int|
                0 <= i < j < participants.len() && local_user_id == Some(
                    (#[trigger] participants[i]).user_id,
                ) ==> local_user_id != Some((#[trigger] participants[j]).user_id))
                ==> forall|i: int|
                0 <= i < update.participants.len() ==> local_user_id != Some(
                    (#[trigger] update.participants[i]).user_id,
                )
        }),
{
    let update = announced_update(participants, local_user_id);
    let ids = participant_user_ids(participants);
    match local_user_id {
        Some(id) => {
            ids.index_of_first_ensures(id);
            match local_index(participants, local_user_id) {
                Some(i) => {
                    assert(ids[i] == participants[i].user_id);
                    lemma_swap_removed(participants, i);
                    if forall|i: int, j: int|
                        0 <= i < j < participants.len() && local_user_id == Some(
                            (#[trigger] participants[i]).user_id,
                        ) ==> local_user_id != Some((#[trigger] participants[j]).user_id) {
                        assert forall|j: int| 0 <= j < update.participants.len() implies id != (
                        #[trigger] update.participants[j]).user_id by {
                            let k = if j == i {
                                participants.len() - 1
                            } else {
                                j
                            };
                            assert(update.participants[j] == participants[k]);
                            assert(participants[i].user_id == id && k != i);
                        }
                    }
                },
                None => {
                    assert forall|i: int| 0 <= i < participants.len() implies id != (
                    #[trigger] participants[i]).user_id by {
                        assert(ids[i] == participants[i].user_id);
                    }
                },
            }
        },
        None => {},
    }
}

proof fn lemma_swap_removed(participants: Seq<ParticipantView>, i: int)
    requires
        0 <= i < participants.len(),
    ensures
        participants.to_multiset() == swap_removed(participants, i).to_multiset().insert(
            participants[i],
        ),
{
    broadcast use vstd::multiset::group_multiset_axioms;

    let last = participants.len() - 1;
    let updated = participants.update(i, participants.last());
    vstd::seq_lib::to_multiset_update(participants, i, participants.last());
    vstd::seq_lib::to_multiset_remove(updated, last);
    vstd::seq_lib::to_multiset_contains(participants, participants[i]);
    vstd::seq_lib::to_multiset_contains(updated, participants.last());
    assert(updated[last] == participants.last());
    assert(updated.remove(last) =~= swap_removed(participants, i));
    assert(participants.to_multiset() =~= swap_removed(participants, i).to_multiset().insert(
        participants[i],
    ));
}

/// The tracks at the position of a participant are taken over exactly where there
/// is a name for looking them up.
pub proof fn law_lookups_are_for_new_participants<F, T, P>(
    room: RoomView<F, T, P>,
    users: Seq<UserView>,
    tracks: Seq<Seq<SubscribedTrackView<T>>>,
    i: nat,
)
    requires
        room.pending_room_update is Some,
        i < matched_len(room.pending_room_update->0.participants, users),
    ensures
        ({
            let update = room.pending_room_update->0;
            let before = room.update_started(update.local_participant).apply_participants(
                update.participants,
                users,
                tracks,
                i,
            ).room;
            let peer_id = update.participants[i as int].peer_id;
            &&& room.track_queries(Some(users)).len() == matched_len(update.participants, users)
            &&& room.track_queries(Some(users))[i as int] == if before.looks_up_tracks(peer_id) {
                Some(decimal_digits(peer_id as nat))
            } else {
                None
            }
        }),
{
    let update = room.pending_room_update->0;
    let started = room.update_started(update.local_participant);
    lemma_apply_participants(started, update.participants, users, tracks, i);
    let peer_id = update.participants[i as int].peer_id;
    assert(sighted(update.participants, i as int, peer_id) <==> !first_sighting(
        update.participants,
        i as int,
    ));
}

/// The update as far as the participants are concerned, before it is known
/// whether the room is left.
pub open spec fn taken_over<F, T, P>(
    room: RoomView<F, T, P>,
    remote_users: Option<Seq<UserView>>,
    pending_users: Option<Seq<UserView>>,
    tracks: Seq<Seq<SubscribedTrackView<T>>>,
) -> RoomView<F, T, P> {
    let update = room.pending_room_update->0;
    room.update_started(update.local_participant).take_remote_users(
        update.participants,
        remote_users,
        tracks,
    ).room.take_pending_users(pending_users)
}

/// Only an empty room is left, so who is in it does not depend on that.
pub proof fn lemma_taken_over<F, T, P>(
    room: RoomView<F, T, P>,
    remote_users: Option<Seq<UserView>>,
    pending_users: Option<Seq<UserView>>,
    tracks: Seq<Seq<SubscribedTrackView<T>>>,
)
    requires
        room.pending_room_update is Some,
    ensures
        ({
            let called = taken_over(room, remote_users, pending_users, tracks);
            let after = room.finish_room_update(remote_users, pending_users, tracks).room;
            &&& after.remote_participants == called.remote_participants
            &&& after.pending_participants == called.pending_participants
            &&& after.status == room.status ==> after.participant_user_ids
                == called.participant_user_ids
            &&& after.status != room.status ==> after == called.vacated()
            &&& called.status == room.status
        }),
{
    let called = taken_over(room, remote_users, pending_users, tracks);
    let after = room.finish_room_update(remote_users, pending_users, tracks).room;
    lemma_finish_room_update(room, remote_users, pending_users, tracks);
    if called.should_leave() {
        assert(called.remote_participants =~= Map::<
            PeerId,
            RemoteParticipantView<F, T>,
        >::empty());
        assert(called.pending_participants =~= Seq::<UserView>::empty());
    }
}

/// After an update, exactly the users of the participants in it and the users who
/// are being called are counted among those in the room. In a room that is left
/// nobody is.
pub proof fn law_who_is_counted<F, T, P>(
    room: RoomView<F, T, P>,
    remote_users: Option<Seq<UserView>>,
    pending_users: Option<Seq<UserView>>,
    tracks: Seq<Seq<SubscribedTrackView<T>>>,
    user_id: u64,
)
    requires
        room.pending_room_update is Some,
    ensures
        ({
            let participants = room.pending_room_update->0.participants;
            let after = room.finish_room_update(remote_users, pending_users, tracks).room;
            after.participant_user_ids.contains(user_id) <==> {
                &&& after.status == room.status
                &&& {
                    ||| remote_users matches Some(users) && sighted_user(
                        participants,
                        matched_len(participants, users) as int,
                        user_id,
                    )
                    ||| pending_users matches Some(users) && user_ids(users).contains(user_id)
                }
            }
        }),
{
    let update = room.pending_room_update->0;
    let started = room.update_started(update.local_participant);
    lemma_taken_over(room, remote_users, pending_users, tracks);
    if let Some(users) = remote_users {
        lemma_apply_participants(
            started,
            update.participants,
            users,
            tracks,
            matched_len(update.participants, users),
        );
    }
}

/// A participant who was in the room keeps the user.
proof fn lemma_user_is_kept<F, T, P>(
    room: RoomView<F, T, P>,
    participants: Seq<ParticipantView>,
    users: Seq<UserView>,
    tracks: Seq<Seq<SubscribedTrackView<T>>>,
    n: nat,
    peer_id: PeerId,
)
    requires
        n <= participants.len(),
        room.remote_participants.contains_key(peer_id),
    ensures
        ({
            let after = room.apply_participants(participants, users, tracks, n).room;
            &&& after.remote_participants.contains_key(peer_id)
            &&& after.remote_participants[peer_id].user == room.remote_participants[peer_id].user
        }),
    decreases n,
{
    if n > 0 {
        let i = n - 1;
        lemma_user_is_kept(room, participants, users, tracks, i as nat, peer_id);
        let before = room.apply_participants(participants, users, tracks, i as nat).room;
        lemma_apply_participant(before, participants[i], users[i], tracks_at(tracks, i));
        let seen = before.with_participant(participants[i], users[i]);
        assert(seen.remote_participants.dom().contains(peer_id));
    }
}

/// A new participant gets the user that was fetched for its first sighting.
proof fn lemma_user_is_taken_over<F, T, P>(
    room: RoomView<F, T, P>,
    participants: Seq<ParticipantView>,
    users: Seq<UserView>,
    tracks: Seq<Seq<SubscribedTrackView<T>>>,
    n: nat,
    i: int,
)
    requires
        0 <= i < n <= participants.len(),
        !room.remote_participants.contains_key(participants[i].peer_id),
        first_sighting(participants, i),
    ensures
        ({
            let after = room.apply_participants(participants, users, tracks, n).room;
            let peer_id = participants[i].peer_id;
            &&& after.remote_participants.contains_key(peer_id)
            &&& after.remote_participants[peer_id].user == users[i]
        }),
    decreases n,
{
    let peer_id = participants[i].peer_id;
    let k = n - 1;
    let before = room.apply_participants(participants, users, tracks, k as nat).room;
    lemma_apply_participant(before, participants[k], users[k], tracks_at(tracks, k));
    let seen = before.with_participant(participants[k], users[k]);
    if i < k {
        lemma_user_is_taken_over(room, participants, users, tracks, k as nat, i);
    } else {
        lemma_apply_participants(room, participants, users, tracks, k as nat);
        assert(!sighted(participants, k, peer_id));
    }
    assert(seen.remote_participants.dom().contains(peer_id));
}

/// A participant has the projects and the location of its last sighting.
proof fn lemma_projects_are_taken_over<F, T, P>(
    room: RoomView<F, T, P>,
    participants: Seq<ParticipantView>,
    users: Seq<UserView>,
    tracks: Seq<Seq<SubscribedTrackView<T>>>,
    n: nat,
    i: int,
)
    requires
        0 <= i < n <= participants.len(),
        forall|j: int|
            i < j < n ==> (#[trigger] participants[j]).peer_id != participants[i].peer_id,
    ensures
        ({
            let after = room.apply_participants(participants, users, tracks, n).room;
            let peer_id = participants[i].peer_id;
            &&& after.remote_participants.contains_key(peer_id)
            &&& after.remote_participants[peer_id].projects == participants[i].projects
            &&& after.remote_participants[peer_id].location == ParticipantLocation::shown(
                participants[i].location,
            )
        }),
    decreases n,
{
    let peer_id = participants[i].peer_id;
    let k = n - 1;
    let before = room.apply_participants(participants, users, tracks, k as nat).room;
    lemma_apply_participant(before, participants[k], users[k], tracks_at(tracks, k));
    let seen = before.with_participant(participants[k], users[k]);
    if i < k {
        lemma_projects_are_taken_over(room, participants, users, tracks, k as nat, i);
        assert(participants[k].peer_id != peer_id);
    }
    assert(seen.remote_participants.dom().contains(peer_id));
}

/// The user of the participant at `i` of an update: the one that it has in the room, or
/// the one that was fetched.
pub open spec fn owner<F, T, P>(
    room: RoomView<F, T, P>,
    participants: Seq<ParticipantView>,
    users: Seq<UserView>,
    i: int,
) -> UserView {
    let peer_id = participants[i].peer_id;
    if room.remote_participants.contains_key(peer_id) {
        room.remote_participants[peer_id].user
    } else {
        users[i]
    }
}

/// The tracks of a participant that come of taking over `tracks`, one after the other.
/// Of two with the same id, the later one counts.
pub open spec fn subscribed_tracks<F, T>(tracks: Seq<SubscribedTrackView<T>>) -> Map<
    Seq<char>,
    RemoteVideoTrack<F, T>,
>
    decreases tracks.len(),
{
    if tracks.len() == 0 {
        Map::empty()
    } else {
        let track = tracks.last();
        subscribed_tracks(tracks.drop_last()).insert(
            track.sid,
            RemoteVideoTrack { frame: None, live_kit_track: track.live_kit_track },
        )
    }
}

/// Whether each of `tracks` names the peer as its publisher.
pub open spec fn published_by<T>(tracks: Seq<SubscribedTrackView<T>>, peer_id: PeerId) -> bool {
    forall|i: int|
        0 <= i < tracks.len() ==> peer_id_named((#[trigger] tracks[i]).publisher_id) == Ok::<
            PeerId,
            PeerIdError,
        >(peer_id)
}

/// Whether the tracks that were looked up for the first `n` participants of an update
/// name the participant for whom they were looked up.
pub open spec fn lookups_are_right<F, T, P>(
    room: RoomView<F, T, P>,
    participants: Seq<ParticipantView>,
    tracks: Seq<Seq<SubscribedTrackView<T>>>,
    n: int,
) -> bool {
    forall|i: int|
        0 <= i < n && room.looks_up_tracks((#[trigger] participants[i]).peer_id)
            && first_sighting(participants, i) ==> published_by(
            tracks_at(tracks, i),
            participants[i].peer_id,
        )
}

/// The lookups are as right at the start of an update as before it.
proof fn lemma_started_lookups<F, T, P>(
    room: RoomView<F, T, P>,
    local_participant: Option<ParticipantView>,
    participants: Seq<ParticipantView>,
    tracks: Seq<Seq<SubscribedTrackView<T>>>,
    n: int,
)
    requires
        lookups_are_right(room, participants, tracks, n),
    ensures
        lookups_are_right(room.update_started(local_participant), participants, tracks, n),
{
    let started = room.update_started(local_participant);
    assert forall|i: int|
        0 <= i < n && started.looks_up_tracks((#[trigger] participants[i]).peer_id)
            && first_sighting(participants, i) implies published_by(
        tracks_at(tracks, i),
        participants[i].peer_id,
    ) by {
        assert(room.looks_up_tracks(participants[i].peer_id));
    }
}

/// Tracks of one participant come to that participant, and to nobody else.
proof fn lemma_own_tracks<F, T, P>(
    room: RoomView<F, T, P>,
    tracks: Seq<SubscribedTrackView<T>>,
    peer_id: PeerId,
)
    requires
        room.remote_participants.contains_key(peer_id),
        room.remote_participants[peer_id].tracks == Map::<
            Seq<char>,
            RemoteVideoTrack<F, T>,
        >::empty(),
        published_by(tracks, peer_id),
    ensures
        ({
            let after = room.subscribe_all(tracks).room;
            &&& after.remote_participants.contains_key(peer_id)
            &&& after.remote_participants[peer_id].tracks == subscribed_tracks::<F, T>(tracks)
            &&& forall|other: PeerId|
                other != peer_id ==> #[trigger] after.remote_participants[other]
                    == room.remote_participants[other]
        }),
    decreases tracks.len(),
{
    if tracks.len() > 0 {
        lemma_own_tracks(room, tracks.drop_last(), peer_id);
        assert(tracks.last() == tracks[tracks.len() - 1]);
    }
}

/// A participant who was in the room keeps its tracks when another one, or itself, is
/// taken over. A new one has those that were looked up.
proof fn lemma_participant_tracks<F, T, P>(
    room: RoomView<F, T, P>,
    participant: ParticipantView,
    user: UserView,
    tracks: Seq<SubscribedTrackView<T>>,
)
    requires
        room.looks_up_tracks(participant.peer_id) ==> published_by(tracks, participant.peer_id),
    ensures
        ({
            let after = room.apply_participant(participant, user, tracks).room;
            &&& forall|peer_id: PeerId| #[trigger]
                room.remote_participants.contains_key(peer_id)
                    ==> after.remote_participants[peer_id].tracks
                    == room.remote_participants[peer_id].tracks
            &&& !room.remote_participants.contains_key(participant.peer_id)
                ==> after.remote_participants[participant.peer_id].tracks
                == if room.live_kit is Some {
                subscribed_tracks::<F, T>(tracks)
            } else {
                Map::empty()
            }
        }),
{
    let seen = room.with_participant(participant, user);
    if room.looks_up_tracks(participant.peer_id) {
        lemma_own_tracks(seen, tracks, participant.peer_id);
    }
}

/// A participant who was in the room keeps its tracks, where the lookups are right.
proof fn lemma_tracks_are_kept<F, T, P>(
    room: RoomView<F, T, P>,
    participants: Seq<ParticipantView>,
    users: Seq<UserView>,
    tracks: Seq<Seq<SubscribedTrackView<T>>>,
    n: nat,
    peer_id: PeerId,
)
    requires
        n <= participants.len(),
        lookups_are_right(room, participants, tracks, n as int),
        room.remote_participants.contains_key(peer_id),
    ensures
        room.apply_participants(
            participants,
            users,
            tracks,
            n,
        ).room.remote_participants[peer_id].tracks == room.remote_participants[peer_id].tracks,
    decreases n,
{
    if n > 0 {
        let k = n - 1;
        lemma_tracks_are_kept(room, participants, users, tracks, k as nat, peer_id);
        lemma_user_is_kept(room, participants, users, tracks, k as nat, peer_id);
        lemma_lookup(room, participants, users, tracks, k as nat);
        let before = room.apply_participants(participants, users, tracks, k as nat).room;
        lemma_participant_tracks(before, participants[k], users[k], tracks_at(tracks, k));
    }
}

/// The tracks of a participant are looked up at the first sighting, if it is new and
/// there is a connection to the media server.
proof fn lemma_lookup<F, T, P>(
    room: RoomView<F, T, P>,
    participants: Seq<ParticipantView>,
    users: Seq<UserView>,
    tracks: Seq<Seq<SubscribedTrackView<T>>>,
    k: nat,
)
    requires
        k < participants.len(),
    ensures
        ({
            let before = room.apply_participants(participants, users, tracks, k).room;
            let peer_id = participants[k as int].peer_id;
            &&& before.live_kit == room.live_kit
            &&& before.looks_up_tracks(peer_id) <==> room.looks_up_tracks(peer_id)
                && first_sighting(participants, k as int)
        }),
{
    lemma_apply_participants(room, participants, users, tracks, k);
    let peer_id = participants[k as int].peer_id;
    assert(sighted(participants, k as int, peer_id) <==> !first_sighting(participants, k as int));
}

/// A new participant has the tracks that were looked up for its first sighting, where
/// the lookups are right.
proof fn lemma_tracks_are_taken_over<F, T, P>(
    room: RoomView<F, T, P>,
    participants: Seq<ParticipantView>,
    users: Seq<UserView>,
    tracks: Seq<Seq<SubscribedTrackView<T>>>,
    n: nat,
    i: int,
)
    requires
        0 <= i < n <= participants.len(),
        lookups_are_right(room, participants, tracks, n as int),
        !room.remote_participants.contains_key(participants[i].peer_id),
        first_sighting(participants, i),
    ensures
        room.apply_participants(
            participants,
            users,
            tracks,
            n,
        ).room.remote_participants[participants[i].peer_id].tracks == if room.live_kit is Some {
            subscribed_tracks::<F, T>(tracks_at(tracks, i))
        } else {
            Map::empty()
        },
    decreases n,
{
    let k = n - 1;
    let peer_id = participants[i].peer_id;
    lemma_lookup(room, participants, users, tracks, k as nat);
    let before = room.apply_participants(participants, users, tracks, k as nat).room;
    if i < k {
        lemma_tracks_are_taken_over(room, participants, users, tracks, k as nat, i);
        lemma_user_is_taken_over(room, participants, users, tracks, k as nat, i);
    } else {
        lemma_apply_participants(room, participants, users, tracks, k as nat);
        assert(!sighted(participants, k, peer_id));
        assert(!before.remote_participants.contains_key(peer_id));
    }
    lemma_participant_tracks(before, participants[k], users[k], tracks_at(tracks, k));
}

/// After an update, a participant in it has the projects and the location of its last
/// sighting. One who was in the room before keeps the user, and a new one has the user
/// that was fetched for its first sighting. It is in the room exactly if that user is
/// announced.
///
/// Where the lookups are right, one who was in the room before keeps the tracks, and a
/// new one has exactly those that were looked up.
pub proof fn law_announced_participants_are_taken_over<F, T, P>(
    room: RoomView<F, T, P>,
    users: Seq<UserView>,
    pending_users: Option<Seq<UserView>>,
    tracks: Seq<Seq<SubscribedTrackView<T>>>,
    first: int,
    last: int,
)
    requires
        room.pending_room_update is Some,
        ({
            let participants = room.pending_room_update->0.participants;
            let peer_id = participants[first].peer_id;
            let n = matched_len(participants, users);
            &&& 0 <= first <= last < n
            &&& participants[last].peer_id == peer_id
            &&& first_sighting(participants, first)
            &&& forall|j: int| last < j < n ==> (#[trigger] participants[j]).peer_id != peer_id
        }),
    ensures
        ({
            let participants = room.pending_room_update->0.participants;
            let peer_id = participants[first].peer_id;
            let n = matched_len(participants, users);
            let after = room.finish_room_update(Some(users), pending_users, tracks).room;
            let user = owner(room, participants, users, first);
            let participant = after.remote_participants[peer_id];
            &&& after.remote_participants.contains_key(peer_id) <==> sighted_user(
                participants,
                n as int,
                user.id,
            )
            &&& after.remote_participants.contains_key(peer_id) ==> {
                &&& participant.user == user
                &&& participant.projects == participants[last].projects
                &&& participant.location == ParticipantLocation::shown(
                    participants[last].location,
                )
            }
            &&& after.remote_participants.contains_key(peer_id) && lookups_are_right(
                room,
                participants,
                tracks,
                n as int,
            ) ==> participant.tracks == if room.remote_participants.contains_key(peer_id) {
                room.remote_participants[peer_id].tracks
            } else if room.live_kit is Some {
                subscribed_tracks::<F, T>(tracks_at(tracks, first))
            } else {
                Map::empty()
            }
        }),
{
    let update = room.pending_room_update->0;
    let participants = update.participants;
    let peer_id = participants[first].peer_id;
    let n = matched_len(participants, users);
    let started = room.update_started(update.local_participant);
    lemma_taken_over(room, Some(users), pending_users, tracks);
    lemma_apply_participants(started, participants, users, tracks, n);
    lemma_projects_are_taken_over(started, participants, users, tracks, n, last);
    if room.remote_participants.contains_key(peer_id) {
        lemma_user_is_kept(started, participants, users, tracks, n, peer_id);
    } else {
        lemma_user_is_taken_over(started, participants, users, tracks, n, first);
    }
    if lookups_are_right(room, participants, tracks, n as int) {
        lemma_started_lookups(room, update.local_participant, participants, tracks, n as int);
        if room.remote_participants.contains_key(peer_id) {
            lemma_tracks_are_kept(started, participants, users, tracks, n, peer_id);
        } else {
            lemma_tracks_are_taken_over(started, participants, users, tracks, n, first);
        }
    }
}

/// After an update, a participant who is not in it is in the room exactly if it was
/// in it before and its user is announced. Then nothing but its tracks may have
/// changed, and where the lookups are right, nothing has.
pub proof fn law_unannounced_participants_depart<F, T, P>(
    room: RoomView<F, T, P>,
    users: Seq<UserView>,
    pending_users: Option<Seq<UserView>>,
    tracks: Seq<Seq<SubscribedTrackView<T>>>,
    peer_id: PeerId,
)
    requires
        room.pending_room_update is Some,
        ({
            let participants = room.pending_room_update->0.participants;
            !sighted(participants, matched_len(participants, users) as int, peer_id)
        }),
    ensures
        ({
            let participants = room.pending_room_update->0.participants;
            let n = matched_len(participants, users);
            let after = room.finish_room_update(Some(users), pending_users, tracks).room;
            &&& after.remote_participants.contains_key(peer_id)
                <==> room.remote_participants.contains_key(peer_id) && sighted_user(
                participants,
                n as int,
                room.remote_participants[peer_id].user.id,
            )
            &&& after.remote_participants.contains_key(peer_id) ==> same_but_tracks(
                room.remote_participants[peer_id],
                after.remote_participants[peer_id],
            )
            &&& after.remote_participants.contains_key(peer_id) && lookups_are_right(
                room,
                participants,
                tracks,
                n as int,
            ) ==> after.remote_participants[peer_id] == room.remote_participants[peer_id]
        }),
{
    let update = room.pending_room_update->0;
    let n = matched_len(update.participants, users);
    let started = room.update_started(update.local_participant);
    lemma_taken_over(room, Some(users), pending_users, tracks);
    lemma_apply_participants(started, update.participants, users, tracks, n);
    let applied = started.apply_participants(update.participants, users, tracks, n).room;
    assert(applied.remote_participants.contains_key(peer_id)
        <==> room.remote_participants.contains_key(peer_id));
    if room.remote_participants.contains_key(peer_id) && lookups_are_right(
        room,
        update.participants,
        tracks,
        n as int,
    ) {
        lemma_started_lookups(room, update.local_participant, update.participants, tracks, n as int);
        lemma_tracks_are_kept(started, update.participants, users, tracks, n, peer_id);
    }
}

/// Whether no error is logged.
pub open spec fn logs_nothing<P>(effects: Seq<EffectView<P>>) -> bool {
    forall|i: int| 0 <= i < effects.len() ==> !(#[trigger] effects[i] is LogError)
}

/// Tracks of a participant in the room are taken over without an error.
proof fn lemma_own_tracks_log_nothing<F, T, P>(
    room: RoomView<F, T, P>,
    tracks: Seq<SubscribedTrackView<T>>,
    peer_id: PeerId,
)
    requires
        room.remote_participants.contains_key(peer_id),
        published_by(tracks, peer_id),
    ensures
        logs_nothing(room.subscribe_all(tracks).effects),
    decreases tracks.len(),
{
    if tracks.len() > 0 {
        lemma_own_tracks_log_nothing(room, tracks.drop_last(), peer_id);
        lemma_subscribe_all(room, tracks.drop_last());
        assert(tracks.last() == tracks[tracks.len() - 1]);
        let before = room.subscribe_all(tracks.drop_last()).room;
        assert(before.remote_participants.dom().contains(peer_id));
    }
}

/// Participants are taken over without an error, where the lookups are right.
proof fn lemma_participants_log_nothing<F, T, P>(
    room: RoomView<F, T, P>,
    participants: Seq<ParticipantView>,
    users: Seq<UserView>,
    tracks: Seq<Seq<SubscribedTrackView<T>>>,
    n: nat,
)
    requires
        n <= participants.len(),
        lookups_are_right(room, participants, tracks, n as int),
    ensures
        logs_nothing(room.apply_participants(participants, users, tracks, n).effects),
    decreases n,
{
    if n > 0 {
        let k = n - 1;
        lemma_participants_log_nothing(room, participants, users, tracks, k as nat);
        lemma_lookup(room, participants, users, tracks, k as nat);
        let before = room.apply_participants(participants, users, tracks, k as nat).room;
        let peer_id = participants[k].peer_id;
        let seen = before.with_participant(participants[k], users[k]);
        if before.looks_up_tracks(peer_id) {
            lemma_own_tracks_log_nothing(seen, tracks_at(tracks, k), peer_id);
        }
    }
}

/// Where the lookups are right, an update logs no error.
pub proof fn law_right_lookups_log_nothing<F, T, P>(
    room: RoomView<F, T, P>,
    users: Seq<UserView>,
    pending_users: Option<Seq<UserView>>,
    tracks: Seq<Seq<SubscribedTrackView<T>>>,
)
    requires
        room.pending_room_update is Some,
        ({
            let participants = room.pending_room_update->0.participants;
            let n = matched_len(participants, users);
            lookups_are_right(room, participants, tracks, n as int)
        }),
    ensures
        logs_nothing(room.finish_room_update(Some(users), pending_users, tracks).effects),
{
    let update = room.pending_room_update->0;
    let participants = update.participants;
    let n = matched_len(participants, users);
    let started = room.update_started(update.local_participant);
    lemma_started_lookups(room, update.local_participant, participants, tracks, n as int);
    lemma_participants_log_nothing(started, participants, users, tracks, n);
    let applied = started.apply_participants(participants, users, tracks, n).room;
    lemma_departures_log_nothing::<F, T, P>(
        applied.remote_participants,
        applied.participant_user_ids,
        peer_id_bound(),
    );
}

proof fn lemma_departures_log_nothing<F, T, P>(
    participants: Map<PeerId, RemoteParticipantView<F, T>>,
    present: Set<u64>,
    bound: nat,
)
    ensures
        logs_nothing(departure_effects::<F, T, P>(participants, present, bound)),
    decreases bound,
{
    if bound > 0 {
        lemma_departures_log_nothing::<F, T, P>(participants, present, (bound - 1) as nat);
    }
}

/// A looked-up track that is refused leaves the room as it is, and why is logged, once.
pub proof fn law_refused_track_is_logged<F, T, P>(
    room: RoomView<F, T, P>,
    tracks: Seq<SubscribedTrackView<T>>,
    track: SubscribedTrackView<T>,
)
    ensures
        ({
            let before = room.subscribe_all(tracks);
            let after = room.subscribe_all(tracks.push(track));
            let result = before.room.remote_video_track_updated(
                RemoteVideoTrackUpdateView::Subscribed(track),
            ).result;
            result matches Err(error) ==> {
                &&& after.room == before.room
                &&& after.effects == before.effects.push(EffectView::LogError(error))
            }
        }),
{
    assert(tracks.push(track).drop_last() =~= tracks);
}

/// Where the users of the participants could not be fetched, the participants stay
/// as they were. Where the users who are being called could not be fetched, those
/// stay as they were.
pub proof fn law_missing_users_change_nobody<F, T, P>(
    room: RoomView<F, T, P>,
    remote_users: Option<Seq<UserView>>,
    pending_users: Option<Seq<UserView>>,
    tracks: Seq<Seq<SubscribedTrackView<T>>>,
)
    requires
        room.pending_room_update is Some,
    ensures
        ({
            let after = room.finish_room_update(remote_users, pending_users, tracks).room;
            &&& remote_users is None ==> after.remote_participants == room.remote_participants
            &&& after.pending_participants == match pending_users {
                Some(users) => users,
                None => room.pending_participants,
            }
        }),
{
    lemma_taken_over(room, remote_users, pending_users, tracks);
    let update = room.pending_room_update->0;
    if let Some(users) = remote_users {
        lemma_apply_participants(
            room.update_started(update.local_participant),
            update.participants,
            users,
            tracks,
            matched_len(update.participants, users),
        );
    }
}

} // verus!

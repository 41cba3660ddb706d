//! Laws on who is counted among the users in a room.

use super::frame::{lemma_apply_participants, lemma_track_update, sighted, sighted_user};
use super::updates::{
    law_announced_participants_are_taken_over, law_unannounced_participants_depart,
    law_who_is_counted, lemma_taken_over, owner,
};
use super::Operation;
use crate::identity::PeerId;
use crate::media::SubscribedTrackView;
use crate::model::{first_sighting, matched_len, RoomView};
use crate::participant::{user_ids, UserView};
use crate::proto;
use crate::proto::{participant_user_ids, ParticipantView};
use vstd::prelude::*;

verus! {

/// In a room that was just opened everybody is counted exactly once, as nobody is in
/// it.
pub proof fn law_opened_room_is_consistent<F, T, P>(
    id: u64,
    live_kit_connection_info: Option<proto::LiveKitConnectionInfo>,
)
    ensures
        RoomView::<F, T, P>::opened(id, live_kit_connection_info).room.consistent(),
{
}

/// After an update for which all users could be fetched, everybody in the room is
/// counted. So nothing but the number of users can be amiss.
pub proof fn law_everybody_is_counted<F, T, P>(
    room: RoomView<F, T, P>,
    users: Seq<UserView>,
    pending_users: Seq<UserView>,
    tracks: Seq<Seq<SubscribedTrackView<T>>>,
)
    requires
        room.pending_room_update is Some,
    ensures
        ({
            let after = room.finish_room_update(Some(users), Some(pending_users), tracks).room;
            &&& forall|peer_id: PeerId| #[trigger]
                after.remote_participants.contains_key(peer_id)
                    ==> after.participant_user_ids.contains(
                    after.remote_participants[peer_id].user.id,
                )
            &&& forall|i: int|
                0 <= i < after.pending_participants.len() ==> after.participant_user_ids.contains(
                    #[trigger] after.pending_participants[i].id,
                )
            &&& after.consistent() <==> after.participant_user_ids.len()
                == after.remote_participants.dom().len() + after.pending_participants.len()
        }),
{
    lemma_taken_over(room, Some(users), Some(pending_users), tracks);
    let update = room.pending_room_update->0;
    let n = matched_len(update.participants, users);
    let started = room.update_started(update.local_participant);
    lemma_apply_participants(started, update.participants, users, tracks, n);
    let after = room.finish_room_update(Some(users), Some(pending_users), tracks).room;
    assert forall|i: int| 0 <= i < after.pending_participants.len() implies #[trigger]
        after.participant_user_ids.contains(after.pending_participants[i].id) by {
        assert(user_ids(pending_users)[i] == pending_users[i].id);
    }
}

/// Whether the users of the first `n` participants of an update are in the update, and
/// nobody else in the room has one of its users.
pub open spec fn users_keep_their_peers<F, T, P>(
    room: RoomView<F, T, P>,
    participants: Seq<ParticipantView>,
    users: Seq<UserView>,
    n: int,
) -> bool {
    &&& forall|i: int|
        0 <= i < n ==> sighted_user(
            participants,
            n,
            (#[trigger] owner(room, participants, users, i)).id,
        )
    &&& forall|peer_id: PeerId| #[trigger]
        room.remote_participants.contains_key(peer_id) && sighted_user(
            participants,
            n,
            room.remote_participants[peer_id].user.id,
        ) ==> sighted(participants, n, peer_id)
}

/// Where the users of an update keep their peers, these are exactly the peers in the
/// room after it.
proof fn lemma_peers_after_update<F, T, P>(
    room: RoomView<F, T, P>,
    users: Seq<UserView>,
    pending_users: Option<Seq<UserView>>,
    tracks: Seq<Seq<SubscribedTrackView<T>>>,
    peer_id: PeerId,
)
    requires
        room.pending_room_update is Some,
        ({
            let participants = room.pending_room_update->0.participants;
            let n = matched_len(participants, users);
            &&& forall|i: int, j: int|
                0 <= i < j < n ==> (#[trigger] participants[i]).peer_id != (
                #[trigger] participants[j]).peer_id
            &&& users_keep_their_peers(room, participants, users, n as int)
        }),
    ensures
        ({
            let participants = room.pending_room_update->0.participants;
            let n = matched_len(participants, users);
            let after = room.finish_room_update(Some(users), pending_users, tracks).room;
            after.remote_participants.contains_key(peer_id) <==> sighted(
                participants,
                n as int,
                peer_id,
            )
        }),
{
    let participants = room.pending_room_update->0.participants;
    let n = matched_len(participants, users);
    if sighted(participants, n as int, peer_id) {
        let i = choose|i: int| 0 <= i < n && (#[trigger] participants[i]).peer_id == peer_id;
        assert(first_sighting(participants, i));
        law_announced_participants_are_taken_over(room, users, pending_users, tracks, i, i);
        assert(sighted_user(participants, n as int, owner(room, participants, users, i).id));
    } else {
        law_unannounced_participants_depart(room, users, pending_users, tracks, peer_id);
    }
}

/// After an update for which all users could be fetched, everybody in the room is
/// counted exactly once, where the update names nobody twice and each of its users
/// keeps the peer.
pub proof fn law_users_are_counted_once<F, T, P>(
    room: RoomView<F, T, P>,
    users: Seq<UserView>,
    pending_users: Seq<UserView>,
    tracks: Seq<Seq<SubscribedTrackView<T>>>,
)
    requires
        room.pending_room_update is Some,
        ({
            let participants = room.pending_room_update->0.participants;
            let n = matched_len(participants, users);
            &&& (participant_user_ids(participants.take(n as int)) + user_ids(
                pending_users,
            )).no_duplicates()
            &&& forall|i: int, j: int|
                0 <= i < j < n ==> (#[trigger] participants[i]).peer_id != (
                #[trigger] participants[j]).peer_id
            &&& users_keep_their_peers(room, participants, users, n as int)
        }),
    ensures
        room.finish_room_update(Some(users), Some(pending_users), tracks).room.consistent(),
{
    let participants = room.pending_room_update->0.participants;
    let n = matched_len(participants, users);
    let after = room.finish_room_update(Some(users), Some(pending_users), tracks).room;
    law_everybody_is_counted(room, users, pending_users, tracks);
    lemma_taken_over(room, Some(users), Some(pending_users), tracks);
    if after.status == room.status {
        let announced = participant_user_ids(participants.take(n as int));
        let called = user_ids(pending_users);
        let ids = announced + called;
        assert(after.participant_user_ids =~= ids.to_set()) by {
            assert forall|user_id: u64|
                after.participant_user_ids.contains(user_id) <==> ids.contains(user_id) by {
                law_who_is_counted(room, Some(users), Some(pending_users), tracks, user_id);
                if sighted_user(participants, n as int, user_id) {
                    let i = choose|i: int|
                        0 <= i < n && (#[trigger] participants[i]).user_id == user_id;
                    assert(ids[i] == user_id);
                }
                if called.contains(user_id) {
                    let i = choose|i: int| 0 <= i < called.len() && called[i] == user_id;
                    assert(ids[announced.len() + i] == user_id);
                }
                if ids.contains(user_id) {
                    let i = choose|i: int| 0 <= i < ids.len() && ids[i] == user_id;
                    if i < announced.len() {
                        assert(participants[i].user_id == user_id);
                    } else {
                        assert(called[i - announced.len()] == user_id);
                    }
                }
            }
        }
        ids.unique_seq_to_set();
        let peers = participants.take(n as int).map_values(|p: ParticipantView| p.peer_id);
        assert(after.remote_participants.dom() =~= peers.to_set()) by {
            assert forall|peer_id: PeerId|
                after.remote_participants.dom().contains(peer_id) <==> peers.contains(peer_id) by {
                lemma_peers_after_update(room, users, Some(pending_users), tracks, peer_id);
                if sighted(participants, n as int, peer_id) {
                    let i = choose|i: int|
                        0 <= i < n && (#[trigger] participants[i]).peer_id == peer_id;
                    assert(peers[i] == peer_id);
                }
                if peers.contains(peer_id) {
                    let i = choose|i: int| 0 <= i < peers.len() && peers[i] == peer_id;
                    assert(participants[i].peer_id == peer_id);
                }
            }
        }
        assert(peers.no_duplicates());
        peers.unique_seq_to_set();
    }
}

/// Everything but an update keeps everybody in the room counted exactly once.
pub proof fn law_other_operations_count_on<F, T, P>(
    room: RoomView<F, T, P>,
    operation: Operation<F, T, P>,
)
    requires
        room.consistent(),
        room.admits(operation),
        !(operation is FinishRoomUpdate),
    ensures
        room.perform(operation).room.consistent(),
{
    let after = room.perform(operation).room;
    match operation {
        Operation::TrackUpdated(update) => {
            lemma_track_update(room, update);
            assert forall|peer_id: PeerId| #[trigger]
                after.remote_participants.contains_key(
                    peer_id,
                ) implies after.participant_user_ids.contains(
                after.remote_participants[peer_id].user.id,
            ) by {
                assert(after.remote_participants.dom().contains(peer_id));
                assert(room.remote_participants.contains_key(peer_id));
            }
        },
        Operation::FrameReceived { peer_id, track_id, frame } => {
            assert(after.remote_participants.dom() =~= room.remote_participants.dom());
        },
        _ => {},
    }
}

} // verus!

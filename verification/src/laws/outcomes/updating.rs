//! Updates of a room by the server.

use super::opening::lemma_nobody;
use super::{announced_at_most_once, is_local_user, is_set_apart};
use crate::error::RoomError;
use crate::event::{Context, EffectView};
use crate::identity::{decimal_digits, PeerId};
use crate::laws::frame::{lemma_apply_participants, sighted, sighted_user};
use crate::laws::lemma_finish_room_update;
use crate::laws::updates::{
    law_announced_participants_are_taken_over, law_missing_users_change_nobody,
    law_unannounced_participants_depart, lemma_taken_over, taken_over,
};
use crate::media::{track_lists_view, SubscribedTrack, SubscribedTrackView};
use crate::model::{announced_update, first_sighting, local_index, matched_len, RoomView};
use crate::participant::{users_view, User, UserView};
use crate::proto;
use crate::proto::{participant_user_ids, participants_view, ParticipantView};
use crate::room::{fetched_view, queries_view, Room, UserFetch};
use vstd::prelude::*;

verus! {

/// How an update is announced: what waits, what is to be fetched, and what is asked for.
pub proof fn lemma_set_apart<F, T, P>(
    room: RoomView<F, T, P>,
    participants: Seq<ParticipantView>,
    pending_user_ids: Seq<u64>,
    local_user_id: Option<u64>,
)
    ensures
        ({
            let step = room.apply_room_update(participants, pending_user_ids, local_user_id);
            let update = step.room.pending_room_update->0;
            &&& step.room.pending_room_update is Some
            &&& is_set_apart(
                participants,
                local_user_id,
                update.local_participant,
                update.participants,
            )
            &&& step.result.remote_user_ids == update.participants.map_values(
                |p: ParticipantView| p.user_id,
            )
            &&& step.result.pending_user_ids == pending_user_ids
            &&& announced_at_most_once(participants, local_user_id) ==> {
                &&& forall|i: int|
                    0 <= i < update.participants.len() ==> local_user_id != Some(
                        (#[trigger] update.participants[i]).user_id,
                    )
                &&& forall|i: int|
                    0 <= i < step.result.remote_user_ids.len() ==> local_user_id != Some(
                        #[trigger] step.result.remote_user_ids[i],
                    )
            }
        }),
{
    let update = announced_update(participants, local_user_id);
    let ids = participant_user_ids(participants);
    if let Some(id) = local_user_id {
        ids.index_of_first_ensures(id);
        match local_index(participants, local_user_id) {
            Some(i) => {
                assert(ids[i] == participants[i].user_id);
                assert forall|j: int| 0 <= j < i implies local_user_id != Some(
                    (#[trigger] participants[j]).user_id,
                ) by {
                    assert(ids[j] == participants[j].user_id);
                }
                assert(is_local_user(participants, local_user_id, i));
                if announced_at_most_once(participants, local_user_id) {
                    assert forall|j: int| 0 <= j < update.participants.len() implies id != (
                    #[trigger] update.participants[j]).user_id by {
                        let k = if j == i {
                            participants.len() - 1
                        } else {
                            j
                        };
                        assert(update.participants[j] == participants[k]);
                        assert(participants[i].user_id == id && k != i);
                    }
                }
            },
            None => {
                assert forall|i: int| 0 <= i < participants.len() implies id != (
                #[trigger] participants[i]).user_id by {
                    assert(ids[i] == participants[i].user_id);
                }
            },
        }
    }
}

/// Whether `others` of an update, and the users to fetch for them, leave the local user
/// out.
pub open spec fn leaves_out_local_user(
    others: Seq<ParticipantView>,
    remote_user_ids: Seq<u64>,
    local_user_id: Option<u64>,
) -> bool {
    &&& forall|i: int|
        0 <= i < others.len() ==> local_user_id != Some((#[trigger] others[i]).user_id)
    &&& forall|i: int|
        0 <= i < remote_user_ids.len() ==> local_user_id != Some(#[trigger] remote_user_ids[i])
}

/// Of every update that the server announces, the first participant who is the local
/// user waits apart, and the users of the others are to be fetched. Where the local user
/// is announced at most once, it is not among the others, and not fetched. Nothing else
/// in the room changes before the users are there.
pub proof fn law_announced_update_sets_local_user_apart<F, T, P>(
    room: &mut Room<F, T, P>,
    message: proto::Room,
    local_user_id: Option<u64>,
    cx: &mut Context<P>,
    fetch: UserFetch,
)
    requires
        call_ensures(Room::<F, T, P>::apply_room_update, (room, message, local_user_id, cx), fetch),
    ensures
        ({
            let participants = participants_view(message.participants@);
            let update = final(room)@.pending_room_update->0;
            &&& final(room)@.pending_room_update is Some
            &&& is_set_apart(
                participants,
                local_user_id,
                update.local_participant,
                update.participants,
            )
            &&& fetch.remote_user_ids@ == update.participants.map_values(
                |p: ParticipantView| p.user_id,
            )
            &&& fetch.pending_user_ids@ == message.pending_participant_user_ids@
            &&& announced_at_most_once(participants, local_user_id) ==> leaves_out_local_user(
                update.participants,
                fetch.remote_user_ids@,
                local_user_id,
            )
            &&& final(room)@ == (RoomView {
                pending_room_update: final(room)@.pending_room_update,
                ..old(room)@
            })
            &&& final(cx)@ == old(cx)@.push(EffectView::Notify)
        }),
{
    lemma_set_apart(
        old(room)@,
        participants_view(message.participants@),
        message.pending_participant_user_ids@,
        local_user_id,
    );
    assert(final(cx)@ =~= old(cx)@.push(EffectView::Notify));
}

/// Of every notice of the server that has a room, the first participant who is the local
/// user waits apart, and the users of the others are to be fetched. Where the local user
/// is announced at most once, it is not among the others, and not fetched. A notice
/// without a room is invalid, and nothing happens.
pub proof fn law_notice_sets_local_user_apart<F, T, P>(
    room: &mut Room<F, T, P>,
    message: proto::RoomUpdated,
    local_user_id: Option<u64>,
    cx: &mut Context<P>,
    result: Result<UserFetch, RoomError>,
)
    requires
        call_ensures(
            Room::<F, T, P>::handle_room_updated,
            (room, message, local_user_id, cx),
            result,
        ),
    ensures
        message.room is None ==> {
            &&& result == Err::<UserFetch, RoomError>(RoomError::InvalidRoom)
            &&& final(room)@ == old(room)@
            &&& final(cx)@ == old(cx)@
        },
        message.room is Some ==> {
            let participants = participants_view(message.room->0.participants@);
            let update = final(room)@.pending_room_update->0;
            let fetch = result->Ok_0;
            &&& result is Ok
            &&& final(room)@.pending_room_update is Some
            &&& is_set_apart(
                participants,
                local_user_id,
                update.local_participant,
                update.participants,
            )
            &&& fetch.remote_user_ids@ == update.participants.map_values(
                |p: ParticipantView| p.user_id,
            )
            &&& fetch.pending_user_ids@ == message.room->0.pending_participant_user_ids@
            &&& announced_at_most_once(participants, local_user_id) ==> leaves_out_local_user(
                update.participants,
                fetch.remote_user_ids@,
                local_user_id,
            )
            &&& final(room)@ == (RoomView {
                pending_room_update: final(room)@.pending_room_update,
                ..old(room)@
            })
            &&& final(cx)@ == old(cx)@.push(EffectView::Notify)
        },
{
    if let Some(announced) = message.room {
        lemma_set_apart(
            old(room)@,
            participants_view(announced.participants@),
            announced.pending_participant_user_ids@,
            local_user_id,
        );
        assert(final(cx)@ =~= old(cx)@.push(EffectView::Notify));
    } else {
        assert(final(cx)@ =~= old(cx)@);
    }
}

/// The names under which tracks are looked up are those of the participants who are not
/// in the room, each at its first sighting, for as many participants as there are users,
/// and only over a media connection.
pub proof fn law_lookups_are_of_those_not_there<F, T, P>(
    room: &Room<F, T, P>,
    remote_users: &Option<Vec<User>>,
    queries: Vec<Option<String>>,
)
    requires
        call_ensures(Room::<F, T, P>::track_queries, (room, remote_users), queries),
    ensures
        room@.pending_room_update is None || *remote_users is None ==> queries@.len() == 0,
        room@.pending_room_update is Some && *remote_users is Some ==> {
            let participants = room@.pending_room_update->0.participants;
            let users = remote_users->0@;
            &&& queries@.len() == if participants.len() <= users.len() {
                participants.len()
            } else {
                users.len()
            }
            &&& forall|i: int|
                0 <= i < queries@.len() ==> {
                    let peer_id = participants[i].peer_id;
                    let query = #[trigger] queries@[i];
                    &&& query is Some <==> {
                        &&& room@.live_kit is Some
                        &&& !room@.remote_participants.contains_key(peer_id)
                        &&& !sighted(participants, i, peer_id)
                    }
                    &&& query matches Some(name) ==> name@ == decimal_digits(peer_id as nat)
                }
        },
{
    let expected = room@.track_queries(fetched_view(*remote_users));
    assert(queries_view(queries@).len() == queries@.len());
    if room@.pending_room_update is Some && *remote_users is Some {
        let participants = room@.pending_room_update->0.participants;
        assert forall|i: int| 0 <= i < queries@.len() implies {
            let peer_id = participants[i].peer_id;
            let query = #[trigger] queries@[i];
            &&& query is Some <==> {
                &&& room@.live_kit is Some
                &&& !room@.remote_participants.contains_key(peer_id)
                &&& !sighted(participants, i, peer_id)
            }
            &&& query matches Some(name) ==> name@ == decimal_digits(peer_id as nat)
        } by {
            assert(queries_view(queries@)[i] == expected[i]);
            assert(sighted(participants, i, participants[i].peer_id) <==> !first_sighting(
                participants,
                i,
            ));
        }
    }
}

/// Whether nobody is in the room once an update with these users has been taken over:
/// neither one who was there nor one who is announced has a user who is announced.
pub open spec fn nobody_stays<F, T, P>(
    room: RoomView<F, T, P>,
    remote_users: Option<Seq<UserView>>,
) -> bool {
    match remote_users {
        None => forall|peer_id: PeerId| !room.remote_participants.contains_key(peer_id),
        Some(users) => {
            let participants = room.pending_room_update->0.participants;
            let n: int = if participants.len() <= users.len() {
                participants.len() as int
            } else {
                users.len() as int
            };
            &&& forall|peer_id: PeerId| #[trigger]
                room.remote_participants.contains_key(peer_id) ==> !sighted_user(
                    participants,
                    n,
                    room.remote_participants[peer_id].user.id,
                )
            &&& forall|i: int|
                0 <= i < n && !room.remote_participants.contains_key(
                    (#[trigger] participants[i]).peer_id,
                ) && !sighted(participants, i, participants[i].peer_id) ==> !sighted_user(
                    participants,
                    n,
                    users[i].id,
                )
        },
    }
}

/// Some participant that has the peer id is the first one.
proof fn lemma_first_sighting(participants: Seq<ParticipantView>, i: int) -> (first: int)
    requires
        0 <= i < participants.len(),
    ensures
        0 <= first <= i,
        participants[first].peer_id == participants[i].peer_id,
        first_sighting(participants, first),
    decreases i,
{
    if first_sighting(participants, i) {
        i
    } else {
        let j = choose|j: int|
            0 <= j < i && participants[j].peer_id == participants[i].peer_id;
        lemma_first_sighting(participants, j)
    }
}

/// Some participant that has the peer id is the last one of the first `n`.
proof fn lemma_last_sighting(participants: Seq<ParticipantView>, i: int, n: int) -> (last: int)
    requires
        0 <= i < n <= participants.len(),
    ensures
        i <= last < n,
        participants[last].peer_id == participants[i].peer_id,
        forall|j: int|
            last < j < n ==> (#[trigger] participants[j]).peer_id != participants[i].peer_id,
    decreases n - i,
{
    if forall|j: int|
        i < j < n ==> (#[trigger] participants[j]).peer_id != participants[i].peer_id {
        i
    } else {
        let j = choose|j: int|
            i < j < n && (#[trigger] participants[j]).peer_id == participants[i].peer_id;
        lemma_last_sighting(participants, j, n)
    }
}

/// Nobody is in the room after an update exactly if nobody stays.
pub proof fn lemma_nobody_stays<F, T, P>(
    room: RoomView<F, T, P>,
    remote_users: Option<Seq<UserView>>,
    pending_users: Option<Seq<UserView>>,
    tracks: Seq<Seq<SubscribedTrackView<T>>>,
)
    requires
        room.pending_room_update is Some,
    ensures
        ({
            let after = room.finish_room_update(remote_users, pending_users, tracks).room;
            nobody_stays(room, remote_users) <==> forall|peer_id: PeerId|
                !after.remote_participants.contains_key(peer_id)
        }),
{
    let after = room.finish_room_update(remote_users, pending_users, tracks).room;
    law_missing_users_change_nobody(room, remote_users, pending_users, tracks);
    if let Some(users) = remote_users {
        let participants = room.pending_room_update->0.participants;
        let n = matched_len(participants, users) as int;
        if nobody_stays(room, remote_users) {
            assert forall|peer_id: PeerId| !after.remote_participants.contains_key(peer_id) by {
                if sighted(participants, n, peer_id) {
                    let i = choose|i: int|
                        0 <= i < n && (#[trigger] participants[i]).peer_id == peer_id;
                    let first = lemma_first_sighting(participants, i);
                    let last = lemma_last_sighting(participants, i, n);
                    law_announced_participants_are_taken_over(
                        room,
                        users,
                        pending_users,
                        tracks,
                        first,
                        last,
                    );
                    assert(!sighted(participants, first, participants[first].peer_id));
                } else {
                    law_unannounced_participants_depart(
                        room,
                        users,
                        pending_users,
                        tracks,
                        peer_id,
                    );
                }
            }
        }
        if forall|peer_id: PeerId| !after.remote_participants.contains_key(peer_id) {
            assert forall|peer_id: PeerId| #[trigger]
                room.remote_participants.contains_key(peer_id) implies !sighted_user(
                participants,
                n,
                room.remote_participants[peer_id].user.id,
            ) by {
                assert(!after.remote_participants.contains_key(peer_id));
                if sighted(participants, n, peer_id) {
                    let i = choose|i: int|
                        0 <= i < n && (#[trigger] participants[i]).peer_id == peer_id;
                    let first = lemma_first_sighting(participants, i);
                    let last = lemma_last_sighting(participants, i, n);
                    law_announced_participants_are_taken_over(
                        room,
                        users,
                        pending_users,
                        tracks,
                        first,
                        last,
                    );
                } else {
                    law_unannounced_participants_depart(
                        room,
                        users,
                        pending_users,
                        tracks,
                        peer_id,
                    );
                }
            }
            assert forall|i: int|
                0 <= i < n && !room.remote_participants.contains_key(
                    (#[trigger] participants[i]).peer_id,
                ) && !sighted(participants, i, participants[i].peer_id) implies !sighted_user(
                participants,
                n,
                users[i].id,
            ) by {
                assert(!after.remote_participants.contains_key(participants[i].peer_id));
                assert(first_sighting(participants, i)) by {
                    assert forall|j: int| 0 <= j < i implies participants[j].peer_id
                        != participants[i].peer_id by {}
                }
                let last = lemma_last_sighting(participants, i, n);
                law_announced_participants_are_taken_over(
                    room,
                    users,
                    pending_users,
                    tracks,
                    i,
                    last,
                );
            }
        }
    }
}

/// When an update has been taken over, no update waits, and the local participant
/// shares what the update says of the local user, or nothing.
///
/// A room that is left by itself is left then exactly if nobody stays in it, nobody is
/// called and no call is under way, whatever the local participant shares. All else that
/// an update is not about stays as it is. At the end the observers are told of a change.
pub proof fn law_finished_update_may_empty_the_room<F, T, P>(
    room: &mut Room<F, T, P>,
    remote_users: Option<Vec<User>>,
    pending_users: Option<Vec<User>>,
    tracks: Vec<Vec<SubscribedTrack<T>>>,
    cx: &mut Context<P>,
)
    requires
        call_ensures(
            Room::<F, T, P>::finish_room_update,
            (room, remote_users, pending_users, tracks, cx),
            (),
        ),
        old(room)@.pending_room_update is Some,
    ensures
        ({
            let before = old(room)@;
            let after = final(room)@;
            let local = before.pending_room_update->0.local_participant;
            let fetched = match remote_users {
                Some(users) => Some(users_view(users@)),
                None => None,
            };
            let pending = match pending_users {
                Some(users) => users_view(users@),
                None => before.pending_participants,
            };
            let alone = before.leave_when_empty && before.pending_call_count == 0 && pending.len()
                == 0 && nobody_stays(before, fetched);
            &&& after.pending_room_update is None
            &&& local is None ==> after.local_participant.projects.len() == 0
            &&& local matches Some(local) ==> after.local_participant.projects == local.projects
            &&& after.local_participant.active_project == before.local_participant.active_project
            &&& after.id == before.id
            &&& after.leave_when_empty == before.leave_when_empty
            &&& after.pending_call_count == before.pending_call_count
            &&& after.pending_participants == pending
            &&& alone ==> after.status is Offline
            &&& alone && before.status is Online ==> {
                &&& after.live_kit is None
                &&& !after.subscribed
                &&& after.participant_user_ids == Set::<u64>::empty()
                &&& forall|peer_id: PeerId| !after.remote_participants.contains_key(peer_id)
            }
            &&& !(alone && before.status is Online) ==> {
                &&& after.status == before.status
                &&& after.live_kit == before.live_kit
                &&& after.subscribed == before.subscribed
            }
            &&& final(cx)@.len() > 0
            &&& final(cx)@.last() == EffectView::<P>::Notify
        }),
{
    let before = old(room)@;
    let fetched = fetched_view(remote_users);
    let pending = fetched_view(pending_users);
    let published = track_lists_view(tracks@);
    let called = taken_over(before, fetched, pending, published);
    lemma_taken_over(before, fetched, pending, published);
    lemma_finish_room_update(before, fetched, pending, published);
    law_missing_users_change_nobody(before, fetched, pending, published);
    lemma_nobody_stays(before, fetched, pending, published);
    lemma_nobody(called);
    let step = before.finish_room_update(fetched, pending, published);
    lemma_local_participant(before, fetched, pending, published);
    assert(step.effects.last() == EffectView::<P>::Notify);
}

/// What an update makes of the local participant.
proof fn lemma_local_participant<F, T, P>(
    room: RoomView<F, T, P>,
    remote_users: Option<Seq<UserView>>,
    pending_users: Option<Seq<UserView>>,
    tracks: Seq<Seq<SubscribedTrackView<T>>>,
)
    requires
        room.pending_room_update is Some,
    ensures
        room.finish_room_update(remote_users, pending_users, tracks).room.local_participant
            == room.update_started(
            room.pending_room_update->0.local_participant,
        ).local_participant,
{
    let update = room.pending_room_update->0;
    if let Some(users) = remote_users {
        lemma_apply_participants(
            room.update_started(update.local_participant),
            update.participants,
            users,
            tracks,
            matched_len(update.participants, users),
        );
    }
}

/// What the laws on updates say of an update is what comes of finishing it with the
/// users and the tracks that are given.
pub proof fn law_finished_update_is_the_announced_one<F, T, P>(
    room: &mut Room<F, T, P>,
    remote_users: Option<Vec<User>>,
    pending_users: Option<Vec<User>>,
    tracks: Vec<Vec<SubscribedTrack<T>>>,
    cx: &mut Context<P>,
)
    requires
        call_ensures(
            Room::<F, T, P>::finish_room_update,
            (room, remote_users, pending_users, tracks, cx),
            (),
        ),
        old(room)@.pending_room_update is Some,
    ensures
        ({
            let step = old(room)@.finish_room_update(
                match remote_users {
                    Some(users) => Some(users@.map_values(|user: User| user@)),
                    None => None,
                },
                match pending_users {
                    Some(users) => Some(users@.map_values(|user: User| user@)),
                    None => None,
                },
                tracks@.map_values(
                    |list: Vec<SubscribedTrack<T>>|
                        list@.map_values(|track: SubscribedTrack<T>| track@),
                ),
            );
            &&& final(room)@ == step.room
            &&& final(cx)@ == old(cx)@ + step.effects
        }),
{
    assert(tracks@.map_values(
        |list: Vec<SubscribedTrack<T>>| list@.map_values(|track: SubscribedTrack<T>| track@),
    ) =~= track_lists_view(tracks@));
}

} // verus!

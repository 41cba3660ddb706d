//! Opening, leaving and dropping a room, and what can be read of one.

use super::updating::lemma_set_apart;
use super::{announced_at_most_once, deserted, goodbye, is_set_apart};
use crate::error::RoomError;
use crate::event::{Context, EffectView};
use crate::identity::PeerId;
use crate::media::LiveKitRoom;
use crate::model::RoomView;
use crate::participant::{
    users_view, LocalParticipant, RemoteParticipant, RemoteParticipantView, User, UserView,
};
use crate::proto;
use crate::proto::{participants_view, ProjectView};
use crate::room::{remote_view, IncomingCall, Room, RoomStatus, UserFetch};
use std::collections::BTreeMap;
use vstd::prelude::*;

verus! {

/// Whether nobody is in the room, nothing is under way and nothing is shared, and the
/// participant is in it.
pub open spec fn just_opened<F, T, P>(room: RoomView<F, T, P>) -> bool {
    &&& room.status is Online
    &&& room.subscribed
    &&& room.remote_participants == Map::<PeerId, RemoteParticipantView<F, T>>::empty()
    &&& room.pending_participants == Seq::<UserView>::empty()
    &&& room.participant_user_ids == Set::<u64>::empty()
    &&& room.pending_call_count == 0
    &&& room.local_participant.projects == Seq::<ProjectView>::empty()
    &&& room.local_participant.active_project is None
}

/// Whether the media connection is there exactly if the server says how to make it, and
/// no screen is shared over it.
pub open spec fn connects<P>(
    live_kit: Option<LiveKitRoom<P>>,
    info: Option<proto::LiveKitConnectionInfo>,
) -> bool {
    &&& live_kit is Some <==> info is Some
    &&& live_kit matches Some(live_kit) ==> live_kit.screen_track is NotShared
        && live_kit.next_publish_id == 0
}

/// What opening a room asks for.
pub open spec fn welcome<P>(info: Option<proto::LiveKitConnectionInfo>) -> Seq<EffectView<P>> {
    match info {
        Some(info) => seq![
            EffectView::WatchConnection,
            EffectView::ConnectLiveKit { server_url: info.server_url@, token: info.token@ },
            EffectView::Subscribe,
        ],
        None => seq![EffectView::WatchConnection, EffectView::Subscribe],
    }
}

/// A new room has the id that is given, and a media connection exactly if the server
/// says how to make it. Nobody is in it, and it is not left by itself.
pub proof fn law_new_room_is_empty<F, T, P>(
    id: u64,
    info: Option<proto::LiveKitConnectionInfo>,
    cx: &mut Context<P>,
    room: Room<F, T, P>,
)
    requires
        call_ensures(Room::<F, T, P>::new, (id, info, cx), room),
    ensures
        room@.id == id,
        just_opened(room@),
        connects(room@.live_kit, info),
        !room@.leave_when_empty,
        room@.pending_room_update is None,
        final(cx)@ == old(cx)@ + welcome(info),
{
    assert(RoomView::<F, T, P>::opened(id, info).effects =~= welcome(info));
}

/// A room is created exactly if the server answers with one, and has its id. The failure
/// of the server is passed on.
pub proof fn law_created_room_is_the_servers<F, T, P>(
    response: Result<proto::CreateRoomResponse, RoomError>,
    cx: &mut Context<P>,
    result: Result<Room<F, T, P>, RoomError>,
)
    requires
        call_ensures(Room::<F, T, P>::create, (response, cx), result),
    ensures
        response matches Err(error) ==> result == Err::<Room<F, T, P>, RoomError>(error),
        response is Ok && response->Ok_0.room is None ==> result == Err::<
            Room<F, T, P>,
            RoomError,
        >(RoomError::InvalidRoom),
        response is Ok && response->Ok_0.room is Some ==> {
            let info = response->Ok_0.live_kit_connection_info;
            &&& result is Ok
            &&& result->Ok_0@.id == response->Ok_0.room->0.id
            &&& just_opened(result->Ok_0@)
            &&& connects(result->Ok_0@.live_kit, info)
            &&& !result->Ok_0@.leave_when_empty
            &&& result->Ok_0@.pending_room_update is None
            &&& final(cx)@ == old(cx)@ + welcome(info)
        },
        result is Err ==> final(cx)@ == old(cx)@,
{
    if response is Ok && response->Ok_0.room is Some {
        let info = response->Ok_0.live_kit_connection_info;
        let id = response->Ok_0.room->0.id;
        assert(RoomView::<F, T, P>::opened(id, info).effects =~= welcome(info));
    }
}

/// A room is joined exactly if the server answers with one, and has the id of the call.
/// It is left by itself, and who is in it waits to be fetched, but for the local user.
/// The failure of the server is passed on.
pub proof fn law_joined_room_is_the_called_one<F, T, P>(
    call: &IncomingCall,
    response: Result<proto::JoinRoomResponse, RoomError>,
    local_user_id: Option<u64>,
    cx: &mut Context<P>,
    result: Result<(Room<F, T, P>, UserFetch), RoomError>,
)
    requires
        call_ensures(Room::<F, T, P>::join, (call, response, local_user_id, cx), result),
    ensures
        response matches Err(error) ==> result == Err::<(Room<F, T, P>, UserFetch), RoomError>(
            error,
        ),
        response is Ok && response->Ok_0.room is None ==> result == Err::<
            (Room<F, T, P>, UserFetch),
            RoomError,
        >(RoomError::InvalidRoom),
        response is Ok && response->Ok_0.room is Some ==> {
            let info = response->Ok_0.live_kit_connection_info;
            let message = response->Ok_0.room->0;
            let participants = participants_view(message.participants@);
            let room = result->Ok_0.0@;
            let fetch = result->Ok_0.1;
            let update = room.pending_room_update->0;
            &&& result is Ok
            &&& room.id == call.room_id
            &&& just_opened(room)
            &&& connects(room.live_kit, info)
            &&& room.leave_when_empty
            &&& room.pending_room_update is Some
            &&& is_set_apart(
                participants,
                local_user_id,
                update.local_participant,
                update.participants,
            )
            &&& fetch.remote_user_ids@ == update.participants.map_values(
                |p: proto::ParticipantView| p.user_id,
            )
            &&& fetch.pending_user_ids@ == message.pending_participant_user_ids@
            &&& announced_at_most_once(participants, local_user_id) ==> forall|i: int|
                0 <= i < fetch.remote_user_ids@.len() ==> local_user_id != Some(
                    #[trigger] fetch.remote_user_ids@[i],
                )
            &&& final(cx)@ == old(cx)@ + welcome(info) + seq![EffectView::Notify]
        },
        result is Err ==> final(cx)@ == old(cx)@,
{
    if response is Ok && response->Ok_0.room is Some {
        let info = response->Ok_0.live_kit_connection_info;
        let opened = RoomView::<F, T, P>::opened(call.room_id, info);
        assert(opened.effects =~= welcome(info));
        let message = response->Ok_0.room->0;
        lemma_set_apart(
            opened.room.leaving_when_empty(),
            participants_view(message.participants@),
            message.pending_participant_user_ids@,
            local_user_id,
        );
    }
}

/// The request to enter the room of a call names that room.
pub proof fn law_join_request_names_the_room(call: &IncomingCall, request: proto::JoinRoom)
    requires
        call_ensures(IncomingCall::join_request, (call,), request),
    ensures
        request.id == call.room_id,
{
}

/// A room that the participant is in can be left whatever goes on in it. One that has
/// been left cannot.
pub proof fn law_leaving_deserts_the_room<F, T, P>(
    room: &mut Room<F, T, P>,
    cx: &mut Context<P>,
    result: Result<(), RoomError>,
)
    requires
        call_ensures(Room::<F, T, P>::leave, (room, cx), result),
    ensures
        old(room)@.status is Online ==> {
            &&& result is Ok
            &&& deserted(old(room)@, final(room)@)
            &&& final(cx)@ == old(cx)@ + goodbye(old(room)@.id, old(room)@.live_kit is Some)
        },
        old(room)@.status is Offline ==> {
            &&& result == Err::<(), RoomError>(RoomError::Offline)
            &&& final(room)@ == old(room)@
            &&& final(cx)@ == old(cx)@
        },
{
    lemma_farewell_is_goodbye(old(room)@);
}

pub proof fn lemma_farewell_is_goodbye<F, T, P>(room: RoomView<F, T, P>)
    ensures
        room.farewell() == goodbye::<P>(room.id, room.live_kit is Some),
{
    assert(room.farewell() =~= goodbye::<P>(room.id, room.live_kit is Some));
}

/// When a room is dropped that has not been left, the server is told that it is left,
/// and nothing else happens.
pub proof fn law_dropped_room_is_left<F, T, P>(room: &Room<F, T, P>, cx: &mut Context<P>)
    requires
        call_ensures(Room::<F, T, P>::release, (room, cx), ()),
    ensures
        room@.status is Online ==> final(cx)@ == old(cx)@.push(
            EffectView::LeaveRoom { room_id: room@.id },
        ),
        room@.status is Offline ==> final(cx)@ == old(cx)@,
{
    if room@.status is Online {
        assert(final(cx)@ =~= old(cx)@.push(EffectView::LeaveRoom { room_id: room@.id }));
    } else {
        assert(final(cx)@ =~= old(cx)@);
    }
}

/// A room is to be left if nobody else is in it, nobody is called and nothing is waited
/// for, whatever the local participant does. Each of these keeps it, and so does it that
/// it is not left by itself.
pub proof fn law_what_keeps_a_room<F, T, P>(room: &Room<F, T, P>, leave: bool)
    requires
        call_ensures(Room::<F, T, P>::should_leave, (room,), leave),
    ensures
        leave <==> {
            &&& room@.leave_when_empty
            &&& room@.pending_room_update is None
            &&& room@.pending_participants.len() == 0
            &&& forall|peer_id: PeerId| !room@.remote_participants.contains_key(peer_id)
            &&& room@.pending_call_count == 0
        },
{
    lemma_nobody(room@);
}

pub proof fn lemma_nobody<F, T, P>(room: RoomView<F, T, P>)
    ensures
        room.remote_participants.dom() == Set::<PeerId>::empty() <==> forall|peer_id: PeerId|
            !room.remote_participants.contains_key(peer_id),
{
    if forall|peer_id: PeerId| !room.remote_participants.contains_key(peer_id) {
        assert forall|peer_id: PeerId| !room.remote_participants.dom().contains(peer_id) by {
            assert(!room.remote_participants.contains_key(peer_id));
        }
        assert(room.remote_participants.dom() =~= Set::<PeerId>::empty());
    }
    if room.remote_participants.dom() == Set::<PeerId>::empty() {
        assert forall|peer_id: PeerId| !room.remote_participants.contains_key(peer_id) by {
            assert(!room.remote_participants.dom().contains(peer_id));
        }
    }
}

/// What can be read of a room is what it is.
pub proof fn law_room_reads_as_it_is<F, T, P>(
    room: &Room<F, T, P>,
    id: u64,
    status: RoomStatus,
    subscribed: bool,
    connected: bool,
    count: usize,
    waiting: bool,
    sharing: bool,
    publish_id: Option<usize>,
)
    requires
        call_ensures(Room::<F, T, P>::id, (room,), id),
        call_ensures(Room::<F, T, P>::status, (room,), status),
        call_ensures(Room::<F, T, P>::is_subscribed, (room,), subscribed),
        call_ensures(Room::<F, T, P>::has_live_kit, (room,), connected),
        call_ensures(Room::<F, T, P>::pending_call_count, (room,), count),
        call_ensures(Room::<F, T, P>::has_pending_room_update, (room,), waiting),
        call_ensures(Room::<F, T, P>::is_screen_sharing, (room,), sharing),
        call_ensures(Room::<F, T, P>::next_publish_id, (room,), publish_id),
    ensures
        id == room@.id,
        status == room@.status,
        subscribed == room@.subscribed,
        connected <==> room@.live_kit is Some,
        count == room@.pending_call_count,
        waiting <==> room@.pending_room_update is Some,
        sharing <==> room@.live_kit is Some && !(room@.live_kit->0.screen_track is NotShared),
        publish_id is Some <==> room@.live_kit is Some,
        publish_id matches Some(next) ==> next == room@.live_kit->0.next_publish_id,
{
}

/// Who can be read to be in a room is who is in it.
pub proof fn law_people_read_as_they_are<F, T, P>(
    room: &Room<F, T, P>,
    user_id: u64,
    counted: bool,
    local: &LocalParticipant,
    remote: &BTreeMap<PeerId, RemoteParticipant<F, T>>,
    pending: &[User],
)
    requires
        call_ensures(Room::<F, T, P>::contains_participant, (room, user_id), counted),
        call_ensures(Room::<F, T, P>::local_participant, (room,), local),
        call_ensures(Room::<F, T, P>::remote_participants, (room,), remote),
        call_ensures(Room::<F, T, P>::pending_participants, (room,), pending),
    ensures
        counted <==> room@.participant_user_ids.contains(user_id),
        local@ == room@.local_participant,
        forall|peer_id: PeerId| #[trigger]
            remote@.contains_key(peer_id) <==> room@.remote_participants.contains_key(peer_id),
        forall|peer_id: PeerId| #[trigger]
            remote@.contains_key(peer_id) ==> remote@[peer_id]@
                == room@.remote_participants[peer_id],
        pending@.len() == room@.pending_participants.len(),
        forall|i: int|
            0 <= i < pending@.len() ==> #[trigger] pending@[i]@ == room@.pending_participants[i],
{
    assert forall|peer_id: PeerId| #[trigger] remote@.contains_key(peer_id) implies remote@[peer_id]@
        == room@.remote_participants[peer_id] && room@.remote_participants.contains_key(
        peer_id,
    ) by {
        assert(remote_view(remote@).contains_key(peer_id));
    }
    assert forall|peer_id: PeerId|
        room@.remote_participants.contains_key(peer_id) implies #[trigger] remote@.contains_key(
        peer_id,
    ) by {
        assert(remote_view(remote@).contains_key(peer_id));
    }
    assert forall|i: int| 0 <= i < pending@.len() implies #[trigger] pending@[i]@
        == room@.pending_participants[i] by {
        assert(users_view(pending@)[i] == pending@[i]@);
    }
}

/// The invariants hold exactly if everybody in the room is counted, and the counted are
/// as many as those in the room.
pub proof fn law_invariants_are_checked<F, T, P>(room: &Room<F, T, P>, consistent: bool)
    requires
        call_ensures(Room::<F, T, P>::check_invariants, (room,), consistent),
    ensures
        consistent <==> {
            &&& forall|peer_id: PeerId|
                room@.remote_participants.contains_key(peer_id)
                    ==> room@.participant_user_ids.contains(
                    (#[trigger] room@.remote_participants[peer_id]).user.id,
                )
            &&& forall|i: int|
                0 <= i < room@.pending_participants.len() ==> room@.participant_user_ids.contains(
                    (#[trigger] room@.pending_participants[i]).id,
                )
            &&& room@.participant_user_ids.len() == room@.remote_participants.dom().len()
                + room@.pending_participants.len()
        },
{
}

/// A status is one of the two.
pub proof fn law_status_is_online_or_offline(status: &RoomStatus, online: bool, offline: bool)
    requires
        call_ensures(RoomStatus::is_online, (status,), online),
        call_ensures(RoomStatus::is_offline, (status,), offline),
    ensures
        online <==> status is Online,
        offline == !online,
{
}

} // verus!

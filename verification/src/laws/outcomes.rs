//! What the methods of a room come to, by what goes in and what comes out.

use crate::event::{EffectView, EventView};
use crate::identity::PeerId;
use crate::model::RoomView;
use crate::participant::{RemoteParticipantView, UserView};
use crate::proto::ParticipantView;
use vstd::prelude::*;

pub mod calling;
pub mod news;
pub mod opening;
pub mod parts;
pub mod sharing;
pub mod updating;
pub mod watching;

verus! {

/// Whether `after` is the room `before` once it has been left: nobody is in it, nothing
/// is reported, and the rest is as it was.
pub open spec fn deserted<F, T, P>(before: RoomView<F, T, P>, after: RoomView<F, T, P>) -> bool {
    &&& after.status is Offline
    &&& after.remote_participants == Map::<PeerId, RemoteParticipantView<F, T>>::empty()
    &&& after.pending_participants == Seq::<UserView>::empty()
    &&& after.participant_user_ids == Set::<u64>::empty()
    &&& after.live_kit is None
    &&& !after.subscribed
    &&& after.id == before.id
    &&& after.local_participant == before.local_participant
    &&& after.pending_call_count == before.pending_call_count
    &&& after.leave_when_empty == before.leave_when_empty
    &&& after.pending_room_update == before.pending_room_update
}

/// What is asked for when the room is left.
pub open spec fn goodbye<P>(room_id: u64, connected: bool) -> Seq<EffectView<P>> {
    if connected {
        seq![
            EffectView::Notify,
            EffectView::Emit(EventView::Left),
            EffectView::Unsubscribe,
            EffectView::DisconnectLiveKit,
            EffectView::LeaveRoom { room_id },
        ]
    } else {
        seq![
            EffectView::Notify,
            EffectView::Emit(EventView::Left),
            EffectView::Unsubscribe,
            EffectView::LeaveRoom { room_id },
        ]
    }
}

/// Whether the participant at `i` is the first one who is the local user.
pub open spec fn is_local_user(
    participants: Seq<ParticipantView>,
    local_user_id: Option<u64>,
    i: int,
) -> bool {
    &&& 0 <= i < participants.len()
    &&& local_user_id == Some(participants[i].user_id)
    &&& forall|j: int|
        0 <= j < i ==> local_user_id != Some((#[trigger] participants[j]).user_id)
}

/// Whether `local` is the first participant who is the local user, if there is one, and
/// `others` are all the others, the last of them in the place of the local user.
pub open spec fn is_set_apart(
    participants: Seq<ParticipantView>,
    local_user_id: Option<u64>,
    local: Option<ParticipantView>,
    others: Seq<ParticipantView>,
) -> bool {
    match local {
        Some(participant) => exists|i: int| #[trigger]
            is_local_user(participants, local_user_id, i) && participant == participants[i]
                && others.len() == participants.len() - 1 && forall|j: int|
                0 <= j < others.len() ==> #[trigger] others[j] == participants[if j == i {
                    participants.len() - 1
                } else {
                    j
                }],
        None => {
            &&& others == participants
            &&& forall|i: int|
                0 <= i < participants.len() ==> local_user_id != Some(
                    (#[trigger] participants[i]).user_id,
                )
        },
    }
}

/// Whether the local user is announced at most once.
pub open spec fn announced_at_most_once(
    participants: Seq<ParticipantView>,
    local_user_id: Option<u64>,
) -> bool {
    forall|i: int, j: int|
        0 <= i < j < participants.len() && local_user_id == Some(
            (#[trigger] participants[i]).user_id,
        ) ==> local_user_id != Some((#[trigger] participants[j]).user_id)
}

} // verus!

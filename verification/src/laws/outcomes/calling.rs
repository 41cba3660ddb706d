//! Calling users into a room.

use super::opening::{lemma_farewell_is_goodbye, lemma_nobody};
use super::{deserted, goodbye};
use crate::error::RoomError;
use crate::event::{Context, EffectView};
use crate::identity::PeerId;
use crate::model::RoomView;
use crate::proto;
use crate::room::{result_after_sending, Room};
use vstd::prelude::*;

verus! {

/// A call out of any room that the participant is in names that room, the user who is
/// called and the project that the call is about. It is counted, and nothing else
/// changes. A room that has been left makes none.
pub proof fn law_call_names_whom_it_calls<F, T, P>(
    room: &mut Room<F, T, P>,
    recipient_user_id: u64,
    initial_project_id: Option<u64>,
    cx: &mut Context<P>,
    result: Result<proto::Call, RoomError>,
)
    requires
        call_ensures(
            Room::<F, T, P>::call,
            (room, recipient_user_id, initial_project_id, cx),
            result,
        ),
        old(room)@.status is Online ==> old(room)@.pending_call_count < usize::MAX,
    ensures
        old(room)@.status is Online ==> {
            &&& result is Ok
            &&& result->Ok_0.room_id == old(room)@.id
            &&& result->Ok_0.recipient_user_id == recipient_user_id
            &&& result->Ok_0.initial_project_id == initial_project_id
            &&& final(room)@.pending_call_count == old(room)@.pending_call_count + 1
            &&& final(room)@ == (RoomView {
                pending_call_count: final(room)@.pending_call_count,
                ..old(room)@
            })
            &&& final(cx)@ == old(cx)@.push(EffectView::Notify)
        },
        old(room)@.status is Offline ==> {
            &&& result == Err::<proto::Call, RoomError>(RoomError::Offline)
            &&& final(room)@ == old(room)@
            &&& final(cx)@ == old(cx)@
        },
{
    if old(room)@.status is Online {
        assert(final(cx)@ =~= old(cx)@.push(EffectView::Notify));
    } else {
        assert(final(cx)@ =~= old(cx)@);
    }
}

/// The first call names the room, the user who is called, and the id under which the
/// project was shared that it is about, or none if it is about none. It is counted, and
/// the room is left by itself from then on. Where the project could not be shared, why
/// is passed on, and nothing happens.
pub proof fn law_first_call_names_whom_it_calls<F, T, P>(
    room: &mut Room<F, T, P>,
    recipient_user_id: u64,
    shared_project: Option<Result<u64, RoomError>>,
    cx: &mut Context<P>,
    result: Result<proto::Call, RoomError>,
)
    requires
        call_ensures(
            Room::<F, T, P>::first_call,
            (room, recipient_user_id, shared_project, cx),
            result,
        ),
        old(room)@.status is Online && !(shared_project matches Some(Err(_)))
            ==> old(room)@.pending_call_count < usize::MAX,
    ensures
        shared_project matches Some(Err(error)) ==> {
            &&& result == Err::<proto::Call, RoomError>(error)
            &&& final(room)@ == old(room)@
            &&& final(cx)@ == old(cx)@
        },
        !(shared_project matches Some(Err(_))) && old(room)@.status is Online ==> {
            &&& result is Ok
            &&& result->Ok_0.room_id == old(room)@.id
            &&& result->Ok_0.recipient_user_id == recipient_user_id
            &&& shared_project is None ==> result->Ok_0.initial_project_id is None
            &&& shared_project matches Some(Ok(id)) ==> result->Ok_0.initial_project_id == Some(id)
            &&& final(room)@.pending_call_count == old(room)@.pending_call_count + 1
            &&& final(room)@.leave_when_empty
            &&& final(room)@ == (RoomView {
                pending_call_count: final(room)@.pending_call_count,
                leave_when_empty: true,
                ..old(room)@
            })
            &&& final(cx)@ == old(cx)@.push(EffectView::Notify)
        },
        !(shared_project matches Some(Err(_))) && old(room)@.status is Offline ==> {
            &&& result == Err::<proto::Call, RoomError>(
                RoomError::CreationFailed(Box::new(RoomError::Offline)),
            )
            &&& final(room)@ == (RoomView { leave_when_empty: true, ..old(room)@ })
            &&& final(cx)@ == old(cx)@
        },
{
    if !(shared_project matches Some(Err(_))) && old(room)@.status is Online {
        assert(final(cx)@ =~= old(cx)@.push(EffectView::Notify));
    } else {
        assert(final(cx)@ =~= old(cx)@);
    }
}

/// When the last call has been answered and nobody else is in the room, it is left, if
/// it is left by itself. What the local participant does has no part in it.
///
/// Otherwise the answer takes the call off the count, and nothing else changes. The
/// answer is passed on, but where a room that has been left is to be left again.
pub proof fn law_answer_may_empty_the_room<F, T, P>(
    room: &mut Room<F, T, P>,
    answer: Result<(), RoomError>,
    cx: &mut Context<P>,
    result: Result<(), RoomError>,
)
    requires
        call_ensures(Room::<F, T, P>::call_finished, (room, answer, cx), result),
        old(room)@.pending_call_count > 0,
    ensures
        ({
            let before = old(room)@;
            let after = final(room)@;
            let count = (before.pending_call_count - 1) as usize;
            let alone = before.leave_when_empty && before.pending_room_update is None
                && before.pending_participants.len() == 0 && before.pending_call_count == 1 && (
            forall|peer_id: PeerId| !before.remote_participants.contains_key(peer_id));
            &&& after.pending_call_count == before.pending_call_count - 1
            &&& alone && before.status is Online ==> {
                &&& result == answer
                &&& deserted(RoomView { pending_call_count: count, ..before }, after)
                &&& final(cx)@ == old(cx)@ + goodbye(before.id, before.live_kit is Some)
            }
            &&& alone && before.status is Offline ==> result == Err::<(), RoomError>(
                RoomError::Offline,
            )
            &&& !alone ==> result == answer
            &&& !(alone && before.status is Online) ==> {
                &&& after == (RoomView { pending_call_count: count, ..before })
                &&& final(cx)@ == old(cx)@
            }
        }),
{
    let before = old(room)@;
    let count = (before.pending_call_count - 1) as usize;
    let answered = RoomView { pending_call_count: count, ..before };
    lemma_nobody(answered);
    lemma_farewell_is_goodbye(answered);
    if !(answered.should_leave() && before.status is Online) {
        assert(final(cx)@ =~= old(cx)@);
    }
    assert(answered.remote_participants == before.remote_participants);
}

/// A room is created exactly if the first call is answered well. Why it is not is kept.
pub proof fn law_creation_ends_with_the_first_call<F, T, P>(
    answer: Result<(), RoomError>,
    result: Result<(), RoomError>,
)
    requires
        call_ensures(Room::<F, T, P>::creation_result, (answer,), result),
    ensures
        answer is Ok <==> result is Ok,
        answer matches Err(error) ==> result == Err::<(), RoomError>(
            RoomError::CreationFailed(Box::new(error)),
        ),
{
}

/// It ends well exactly if the message is sent and all else is well. Of two failures
/// that of sending is reported.
pub proof fn law_sending_comes_first(
    sent: Result<(), RoomError>,
    result: Result<(), RoomError>,
    outcome: Result<(), RoomError>,
)
    requires
        call_ensures(result_after_sending, (sent, result), outcome),
    ensures
        outcome is Ok <==> sent is Ok && result is Ok,
        sent is Err ==> outcome == sent,
        sent is Ok ==> outcome == result,
{
}

} // verus!

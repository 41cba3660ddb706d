//! What the parts of an update leave alone.

use crate::event::EffectView;
use crate::identity::PeerId;
use crate::media::{RemoteVideoTrackUpdateView, SubscribedTrackView};
use crate::model::{
    departure_effects, newly_shared, no_longer_shared, shared_effects, tracks_at, unshared_effects,
    RoomView,
};
use crate::participant::{RemoteParticipantView, UserView};
use crate::proto::{participant_user_ids, project_ids, ParticipantView};
use vstd::prelude::*;

verus! {

/// Whether nothing is asked for but to tell the observers of changes, not that the room
/// has been left, and to log errors.
pub open spec fn quiet<P>(effects: Seq<EffectView<P>>) -> bool {
    forall|i: int|
        0 <= i < effects.len() ==> match #[trigger] effects[i] {
            EffectView::Notify => true,
            EffectView::Emit(event) => !(event is Left),
            EffectView::LogError(_) => true,
            _ => false,
        }
}

/// Whether the participants differ in their tracks only.
pub open spec fn same_but_tracks<F, T>(
    a: RemoteParticipantView<F, T>,
    b: RemoteParticipantView<F, T>,
) -> bool {
    a.user == b.user && a.projects == b.projects && a.location == b.location
}

/// Whether the rooms differ in the tracks of the participants only.
pub open spec fn same_room_but_tracks<F, T, P>(
    a: RoomView<F, T, P>,
    b: RoomView<F, T, P>,
) -> bool {
    &&& b == (RoomView { remote_participants: b.remote_participants, ..a })
    &&& a.remote_participants.dom() == b.remote_participants.dom()
    &&& forall|peer_id: PeerId| #[trigger]
        a.remote_participants.contains_key(peer_id) ==> same_but_tracks(
            a.remote_participants[peer_id],
            b.remote_participants[peer_id],
        )
}

pub proof fn lemma_quiet_add<P>(a: Seq<EffectView<P>>, b: Seq<EffectView<P>>)
    requires
        quiet(a),
        quiet(b),
    ensures
        quiet(a + b),
{
    assert forall|i: int| 0 <= i < (a + b).len() implies match #[trigger] (a + b)[i] {
        EffectView::Notify => true,
        EffectView::Emit(event) => !(event is Left),
        EffectView::LogError(_) => true,
        _ => false,
    } by {
        if i < a.len() {
            assert((a + b)[i] == a[i]);
        } else {
            assert((a + b)[i] == b[i - a.len()]);
        }
    }
}

pub proof fn lemma_track_update<F, T, P>(
    room: RoomView<F, T, P>,
    update: RemoteVideoTrackUpdateView<T>,
)
    ensures
        same_room_but_tracks(room, room.remote_video_track_updated(update).room),
        quiet(room.remote_video_track_updated(update).effects),
{
    let after = room.remote_video_track_updated(update).room;
    assert(after.remote_participants.dom() =~= room.remote_participants.dom());
}

pub proof fn lemma_subscribe_all<F, T, P>(
    room: RoomView<F, T, P>,
    tracks: Seq<SubscribedTrackView<T>>,
)
    ensures
        same_room_but_tracks(room, room.subscribe_all(tracks).room),
        quiet(room.subscribe_all(tracks).effects),
    decreases tracks.len(),
{
    if tracks.len() > 0 {
        lemma_subscribe_all(room, tracks.drop_last());
        let before = room.subscribe_all(tracks.drop_last());
        let update = RemoteVideoTrackUpdateView::Subscribed(tracks.last());
        lemma_track_update(before.room, update);
        let step = before.room.remote_video_track_updated(update);
        lemma_quiet_add(before.effects, step.effects);
        if let Err(error) = step.result {
            lemma_quiet_add(before.effects + step.effects, seq![EffectView::LogError(error)]);
        }
    }
}

pub proof fn lemma_apply_participant<F, T, P>(
    room: RoomView<F, T, P>,
    participant: ParticipantView,
    user: UserView,
    tracks: Seq<SubscribedTrackView<T>>,
)
    ensures
        same_room_but_tracks(
            room.with_participant(participant, user),
            room.apply_participant(participant, user, tracks).room,
        ),
        quiet(room.apply_participant(participant, user, tracks).effects),
{
    let seen = room.with_participant(participant, user);
    let looked_up = if room.looks_up_tracks(participant.peer_id) {
        tracks
    } else {
        Seq::empty()
    };
    lemma_subscribe_all(seen, looked_up);
    let earlier = room.projects_of(participant.peer_id);
    lemma_quiet_add(
        shared_effects::<P>(user, newly_shared(earlier, participant.projects)),
        unshared_effects::<P>(no_longer_shared(earlier, participant.projects)),
    );
    lemma_quiet_add(
        room.project_effects(participant, user),
        seen.subscribe_all(looked_up).effects,
    );
}

/// Whether one of the first `n` participants has the peer id.
pub open spec fn sighted(participants: Seq<ParticipantView>, n: int, peer_id: PeerId) -> bool {
    exists|i: int| 0 <= i < n && (#[trigger] participants[i]).peer_id == peer_id
}

/// Whether one of the first `n` participants is the user.
pub open spec fn sighted_user(participants: Seq<ParticipantView>, n: int, user_id: u64) -> bool {
    exists|i: int| 0 <= i < n && (#[trigger] participants[i]).user_id == user_id
}

/// What taking over participants does: it counts their users and their peers
/// among those in the room, and touches nothing but that.
pub proof fn lemma_apply_participants<F, T, P>(
    room: RoomView<F, T, P>,
    participants: Seq<ParticipantView>,
    users: Seq<UserView>,
    tracks: Seq<Seq<SubscribedTrackView<T>>>,
    n: nat,
)
    requires
        n <= participants.len(),
    ensures
        ({
            let step = room.apply_participants(participants, users, tracks, n);
            let after = step.room;
            &&& quiet(step.effects)
            &&& after == (RoomView {
                remote_participants: after.remote_participants,
                participant_user_ids: after.participant_user_ids,
                ..room
            })
            &&& forall|peer_id: PeerId| #[trigger]
                after.remote_participants.contains_key(peer_id)
                    <==> room.remote_participants.contains_key(peer_id) || sighted(
                    participants,
                    n as int,
                    peer_id,
                )
            &&& forall|user_id: u64| #[trigger]
                after.participant_user_ids.contains(user_id) <==> room.participant_user_ids.contains(
                    user_id,
                ) || sighted_user(participants, n as int, user_id)
            &&& forall|peer_id: PeerId| #[trigger]
                after.remote_participants.contains_key(peer_id) && !sighted(
                    participants,
                    n as int,
                    peer_id,
                ) ==> same_but_tracks(
                    room.remote_participants[peer_id],
                    after.remote_participants[peer_id],
                )
        }),
    decreases n,
{
    if n > 0 {
        let i = n - 1;
        lemma_apply_participants(room, participants, users, tracks, i as nat);
        let before = room.apply_participants(participants, users, tracks, i as nat);
        let own = tracks_at(tracks, i);
        lemma_apply_participant(before.room, participants[i], users[i], own);
        let step = before.room.apply_participant(participants[i], users[i], own);
        lemma_quiet_add(before.effects, step.effects);
        let seen = before.room.with_participant(participants[i], users[i]);
        assert forall|peer_id: PeerId|
            sighted(participants, n as int, peer_id) <==> sighted(participants, i, peer_id)
                || participants[i].peer_id == peer_id by {
            if sighted(participants, n as int, peer_id) {
                let j = choose|j: int|
                    0 <= j < n && (#[trigger] participants[j]).peer_id == peer_id;
                assert(j == i || sighted(participants, i, peer_id));
            }
        }
        assert forall|user_id: u64|
            sighted_user(participants, n as int, user_id) <==> sighted_user(
                participants,
                i,
                user_id,
            ) || participants[i].user_id == user_id by {
            if sighted_user(participants, n as int, user_id) {
                let j = choose|j: int|
                    0 <= j < n && (#[trigger] participants[j]).user_id == user_id;
                assert(j == i || sighted_user(participants, i, user_id));
            }
        }
        assert forall|peer_id: PeerId| #[trigger]
            step.room.remote_participants.contains_key(
                peer_id,
            ) implies seen.remote_participants.contains_key(peer_id) by {
            assert(step.room.remote_participants.dom().contains(peer_id));
        }
        assert forall|peer_id: PeerId| #[trigger]
            seen.remote_participants.contains_key(
                peer_id,
            ) implies step.room.remote_participants.contains_key(peer_id) by {
            assert(seen.remote_participants.dom().contains(peer_id));
        }
    }
}

pub proof fn lemma_departures_quiet<F, T, P>(
    participants: Map<PeerId, RemoteParticipantView<F, T>>,
    present: Set<u64>,
    bound: nat,
)
    ensures
        quiet(departure_effects::<F, T, P>(participants, present, bound)),
    decreases bound,
{
    if bound > 0 {
        lemma_departures_quiet::<F, T, P>(participants, present, (bound - 1) as nat);
        let peer_id = (bound - 1) as PeerId;
        lemma_quiet_add(
            departure_effects::<F, T, P>(participants, present, (bound - 1) as nat),
            unshared_effects::<P>(project_ids(participants[peer_id].projects)),
        );
    }
}

} // verus!

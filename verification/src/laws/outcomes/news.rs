//! What an update asks for, in which order.

use super::goodbye;
use super::opening::{lemma_farewell_is_goodbye, lemma_nobody};
use super::updating::{lemma_nobody_stays, nobody_stays};
use crate::event::{EffectView, EventView};
use crate::identity::PeerId;
use crate::laws::lemma_finish_room_update;
use crate::laws::told::{shared_news, unshared_news};
use crate::laws::updates::{law_missing_users_change_nobody, lemma_taken_over, taken_over};
use crate::media::{RemoteVideoTrackUpdateView, SubscribedTrackView};
use crate::model::{departure_effects, tracks_at, RoomView};
use crate::participant::{RemoteParticipantView, UserView};
use crate::proto::{project_ids, ParticipantView, ProjectView};
use vstd::prelude::*;

verus! {

/// Whether one of the projects has the id.
pub open spec fn has_project(projects: Seq<ProjectView>, id: u64) -> bool {
    exists|i: int| 0 <= i < projects.len() && (#[trigger] projects[i]).id == id
}

proof fn lemma_has_project(projects: Seq<ProjectView>, id: u64)
    ensures
        has_project(projects, id) <==> project_ids(projects).contains(id),
{
    if has_project(projects, id) {
        let i = choose|i: int| 0 <= i < projects.len() && (#[trigger] projects[i]).id == id;
        assert(project_ids(projects)[i] == id);
    }
    if project_ids(projects).contains(id) {
        let i = choose|i: int| 0 <= i < projects.len() && project_ids(projects)[i] == id;
        assert(projects[i].id == id);
    }
}

/// When a participant is seen, the observers are first told of the projects that it did
/// not share before, in the order of the update, with the user that was fetched as their
/// owner. After that they are told of projects that are no longer shared.
pub proof fn law_new_projects_are_told_first<F, T, P>(
    room: RoomView<F, T, P>,
    participant: ParticipantView,
    user: UserView,
)
    ensures
        ({
            let effects = room.project_effects(participant, user);
            let earlier = if room.remote_participants.contains_key(participant.peer_id) {
                room.remote_participants[participant.peer_id].projects
            } else {
                Seq::empty()
            };
            let fresh = participant.projects.filter(|p: ProjectView| !has_project(earlier, p.id));
            &&& effects.len() >= fresh.len()
            &&& forall|i: int|
                0 <= i < fresh.len() ==> #[trigger] effects[i] == shared_news::<P>(user, fresh[i])
            &&& forall|i: int|
                fresh.len() <= i < effects.len() ==> (#[trigger] effects[i] matches EffectView::Emit(
                    EventView::RemoteProjectUnshared { project_id },
                ) && has_project(earlier, project_id) && !has_project(
                    participant.projects,
                    project_id,
                ))
        }),
{
    let earlier = room.projects_of(participant.peer_id);
    let is_new = |p: ProjectView| !project_ids(earlier).contains(p.id);
    let is_fresh = |p: ProjectView| !has_project(earlier, p.id);
    assert forall|p: ProjectView| #[trigger] is_new(p) == is_fresh(p) by {
        lemma_has_project(earlier, p.id);
    }
    assert(is_new =~= is_fresh);
    let fresh = participant.projects.filter(is_fresh);
    let gone = crate::model::no_longer_shared(earlier, participant.projects);
    crate::laws::told::lemma_no_longer_shared(earlier, participant.projects);
    let effects = room.project_effects(participant, user);
    assert forall|i: int| fresh.len() <= i < effects.len() implies (
    #[trigger] effects[i] matches EffectView::Emit(
        EventView::RemoteProjectUnshared { project_id },
    ) && has_project(earlier, project_id) && !has_project(participant.projects, project_id)) by {
        let id = gone[i - fresh.len()];
        assert(effects[i] == unshared_news::<P>(id));
        assert(gone.contains(id));
        lemma_has_project(earlier, id);
        lemma_has_project(participant.projects, id);
    }
}

/// The participants of an update are seen one after the other. Of each the observers are
/// told, after all that they were told of those before it, the news of its projects, and
/// after that nothing but what comes of its tracks: changes, and errors to log. The
/// tracks of one who is new are taken over once it is in the room, those of others are
/// not, and without a media connection none are.
pub proof fn law_participants_are_seen_in_order<F, T, P>(
    room: RoomView<F, T, P>,
    participants: Seq<ParticipantView>,
    users: Seq<UserView>,
    tracks: Seq<Seq<SubscribedTrackView<T>>>,
    i: nat,
)
    requires
        i < participants.len(),
    ensures
        ({
            let before = room.apply_participants(participants, users, tracks, i);
            let after = room.apply_participants(participants, users, tracks, i + 1);
            let news = before.room.project_effects(participants[i as int], users[i as int]);
            let told = before.effects + news;
            let new_over_media = room.live_kit is Some
                && !before.room.remote_participants.contains_key(participants[i as int].peer_id);
            &&& room.apply_participants(participants, users, tracks, 0).effects.len() == 0
            &&& told.is_prefix_of(after.effects)
            &&& forall|j: int|
                told.len() <= j < after.effects.len() ==> (#[trigger] after.effects[j] is Notify
                    || after.effects[j] is LogError)
            &&& new_over_media && i < tracks.len() ==> after.room == before.room.apply_participant(
                participants[i as int],
                users[i as int],
                Seq::empty(),
            ).room.subscribe_all(tracks[i as int]).room
            &&& !(new_over_media && i < tracks.len()) ==> after.room
                == before.room.apply_participant(
                participants[i as int],
                users[i as int],
                Seq::empty(),
            ).room
            &&& after.effects.len() - told.len() == if new_over_media && i < tracks.len() {
                tracks[i as int].len()
            } else {
                0
            }
        }),
{
    let before = room.apply_participants(participants, users, tracks, i);
    let after = room.apply_participants(participants, users, tracks, i + 1);
    let participant = participants[i as int];
    let user = users[i as int];
    let seen = before.room.with_participant(participant, user);
    let looked_up = if before.room.looks_up_tracks(participant.peer_id) {
        tracks_at(tracks, i as int)
    } else {
        Seq::empty()
    };
    lemma_track_effects(seen, looked_up);
    crate::laws::frame::lemma_apply_participants(room, participants, users, tracks, i);
    let news = before.room.project_effects(participant, user);
    let rest = seen.subscribe_all(looked_up).effects;
    assert(after.effects =~= before.effects + news + rest);
}

/// Each of the tracks that are taken over asks for one thing: a change is told, or an
/// error is logged.
proof fn lemma_track_effects<F, T, P>(
    room: RoomView<F, T, P>,
    tracks: Seq<SubscribedTrackView<T>>,
)
    ensures
        room.subscribe_all(tracks).effects.len() == tracks.len(),
        forall|i: int|
            0 <= i < tracks.len() ==> (#[trigger] room.subscribe_all(tracks).effects[i] is Notify
                || room.subscribe_all(tracks).effects[i] is LogError),
    decreases tracks.len(),
{
    if tracks.len() > 0 {
        lemma_track_effects(room, tracks.drop_last());
    }
}

/// A looked-up track that is accepted is taken over after those before it, and a change
/// is told.
pub proof fn law_accepted_track_is_told<F, T, P>(
    room: RoomView<F, T, P>,
    tracks: Seq<SubscribedTrackView<T>>,
    track: SubscribedTrackView<T>,
)
    ensures
        ({
            let before = room.subscribe_all(tracks);
            let after = room.subscribe_all(tracks.push(track));
            let step = before.room.remote_video_track_updated(
                RemoteVideoTrackUpdateView::Subscribed(track),
            );
            &&& room.subscribe_all(Seq::empty()).room == room
            &&& step.result is Ok ==> {
                &&& after.room == step.room
                &&& after.effects == before.effects.push(EffectView::Notify)
            }
        }),
{
    assert(tracks.push(track).drop_last() =~= tracks);
    let before = room.subscribe_all(tracks);
    let after = room.subscribe_all(tracks.push(track));
    let step = before.room.remote_video_track_updated(
        RemoteVideoTrackUpdateView::Subscribed(track),
    );
    if step.result is Ok {
        assert(after.effects =~= before.effects.push(EffectView::Notify));
    }
}

/// Those who have gone are dealt with in the order of their peer ids. Of each the
/// observers are told that each of its projects is no longer shared, in order, and of
/// those who stay nothing.
pub proof fn law_departures_are_told_in_order<F, T, P>(
    participants: Map<PeerId, RemoteParticipantView<F, T>>,
    present: Set<u64>,
    peer_id: PeerId,
)
    ensures
        ({
            let before = departure_effects::<F, T, P>(participants, present, peer_id as nat);
            let after = departure_effects::<F, T, P>(participants, present, (peer_id + 1) as nat);
            let participant = participants[peer_id];
            let gone = participants.contains_key(peer_id) && !present.contains(participant.user.id);
            &&& departure_effects::<F, T, P>(participants, present, 0).len() == 0
            &&& before.is_prefix_of(after)
            &&& !gone ==> after == before
            &&& gone ==> {
                &&& after.len() == before.len() + participant.projects.len()
                &&& forall|i: int|
                    0 <= i < participant.projects.len() ==> after[before.len() + i]
                        == unshared_news::<P>((#[trigger] participant.projects[i]).id)
            }
        }),
{
}

/// What an update asks for is what comes of its participants, in order, then what comes
/// of those who have gone, then, exactly if the room is left, what leaving it asks for,
/// and at last that the observers are told of a change. Without the users of the
/// participants nothing comes of them, and nobody has gone.
pub proof fn law_update_asks_in_order<F, T, P>(
    room: RoomView<F, T, P>,
    remote_users: Option<Seq<UserView>>,
    pending_users: Option<Seq<UserView>>,
    tracks: Seq<Seq<SubscribedTrackView<T>>>,
)
    requires
        room.pending_room_update is Some,
    ensures
        ({
            let update = room.pending_room_update->0;
            let effects = room.finish_room_update(remote_users, pending_users, tracks).effects;
            let news = match remote_users {
                Some(users) => {
                    let n: nat = if update.participants.len() <= users.len() {
                        update.participants.len()
                    } else {
                        users.len()
                    };
                    let seen = room.update_started(update.local_participant).apply_participants(
                        update.participants,
                        users,
                        tracks,
                        n,
                    );
                    seen.effects + departure_effects(
                        seen.room.remote_participants,
                        seen.room.participant_user_ids,
                        (u32::MAX + 1) as nat,
                    )
                },
                None => Seq::empty(),
            };
            let pending = match pending_users {
                Some(users) => users,
                None => room.pending_participants,
            };
            let left = room.status is Online && room.leave_when_empty && room.pending_call_count
                == 0 && pending.len() == 0 && nobody_stays(room, remote_users);
            effects == if left {
                news + goodbye(room.id, room.live_kit is Some) + seq![EffectView::Notify]
            } else {
                news + seq![EffectView::Notify]
            }
        }),
{
    let called = taken_over(room, remote_users, pending_users, tracks);
    let effects = room.finish_room_update(remote_users, pending_users, tracks).effects;
    lemma_taken_over(room, remote_users, pending_users, tracks);
    lemma_finish_room_update(room, remote_users, pending_users, tracks);
    law_missing_users_change_nobody(room, remote_users, pending_users, tracks);
    lemma_nobody_stays(room, remote_users, pending_users, tracks);
    lemma_nobody(called);
    lemma_farewell_is_goodbye(called);
    let update = room.pending_room_update->0;
    let remote = room.update_started(update.local_participant).take_remote_users(
        update.participants,
        remote_users,
        tracks,
    );
    let end = seq![EffectView::<P>::Notify];
    assert(effects == remote.effects + called.leave_if_empty().effects + end);
    if !called.should_leave() || room.status is Offline {
        assert(remote.effects + called.leave_if_empty().effects =~= remote.effects);
    }
}

} // verus!

//! Laws on what the observers of a room are told of an update.

use super::frame::{lemma_apply_participant, lemma_apply_participants, sighted_user};
use super::updates::{lemma_taken_over, taken_over};
use super::{lemma_never, lemma_once, lemma_times_add, times};
use crate::event::{EffectView, EventView};
use crate::identity::PeerId;
use crate::media::SubscribedTrackView;
use crate::model::{
    departure_effects, matched_len, newly_shared, no_longer_shared, peer_id_bound, shared_effects,
    tracks_at, unshared_effects, RoomView,
};
use crate::participant::{ParticipantLocation, RemoteParticipantView, UserView};
use crate::proto::{project_ids, ParticipantView, ProjectView};
use vstd::prelude::*;

verus! {

/// The news that `owner` shares `project`.
pub open spec fn shared_news<P>(owner: UserView, project: ProjectView) -> EffectView<P> {
    EffectView::Emit(
        EventView::RemoteProjectShared {
            owner,
            project_id: project.id,
            worktree_root_names: project.worktree_root_names,
        },
    )
}

/// The news that the project with this id is no longer shared.
pub open spec fn unshared_news<P>(project_id: u64) -> EffectView<P> {
    EffectView::Emit(EventView::RemoteProjectUnshared { project_id })
}

/// The ids that are no longer shared are those that were shared and are not, and
/// each comes once.
pub proof fn lemma_no_longer_shared(earlier: Seq<ProjectView>, current: Seq<ProjectView>)
    ensures
        no_longer_shared(earlier, current).no_duplicates(),
        forall|id: u64| #[trigger]
            no_longer_shared(earlier, current).contains(id) <==> project_ids(earlier).contains(id)
                && !project_ids(current).contains(id),
    decreases earlier.len(),
{
    if earlier.len() > 0 {
        let before = earlier.drop_last();
        lemma_no_longer_shared(before, current);
        let ids = no_longer_shared(before, current);
        let last = earlier.last().id;
        assert(project_ids(earlier) =~= project_ids(before).push(last));
        assert forall|id: u64| #[trigger]
            project_ids(earlier).contains(id) <==> project_ids(before).contains(id) || id
                == last by {
            if project_ids(before).contains(id) {
                let i = choose|i: int|
                    0 <= i < project_ids(before).len() && project_ids(before)[i] == id;
                assert(project_ids(earlier)[i] == id);
            }
            if id == last {
                assert(project_ids(earlier)[before.len() as int] == id);
            }
        }
        if !project_ids(current).contains(last) && !ids.contains(last) {
            assert forall|id: u64| #[trigger]
                ids.push(last).contains(id) <==> ids.contains(id) || id == last by {
                if ids.contains(id) {
                    let i = choose|i: int| 0 <= i < ids.len() && ids[i] == id;
                    assert(ids.push(last)[i] == id);
                }
                if id == last {
                    assert(ids.push(last)[ids.len() as int] == id);
                }
            }
        }
    }
}

/// The observers are told of a shared project as often as it is in the list.
proof fn lemma_shared_times<P>(user: UserView, projects: Seq<ProjectView>, project: ProjectView)
    ensures
        times(shared_effects::<P>(user, projects), shared_news(user, project))
            == projects.to_multiset().count(project),
    decreases projects.len(),
{
    broadcast use vstd::multiset::group_multiset_axioms;

    let effects = shared_effects::<P>(user, projects);
    let news = shared_news::<P>(user, project);
    if projects.len() == 0 {
        vstd::seq_lib::to_multiset_contains(projects, project);
        lemma_never(effects, news);
    } else {
        let before = projects.drop_last();
        let last = projects.last();
        lemma_shared_times::<P>(user, before, project);
        assert(projects =~= before.push(last));
        assert(effects =~= shared_effects::<P>(user, before).push(shared_news(user, last)));
        vstd::seq_lib::to_multiset_build(before, last);
        vstd::seq_lib::to_multiset_build(
            shared_effects::<P>(user, before),
            shared_news(user, last),
        );
        assert(shared_news::<P>(user, last) == news ==> last == project);
    }
}

/// A project that was not shared before is among the new ones as often as it is
/// announced.
proof fn lemma_newly_shared_times(
    earlier: Seq<ProjectView>,
    current: Seq<ProjectView>,
    project: ProjectView,
)
    requires
        !project_ids(earlier).contains(project.id),
    ensures
        newly_shared(earlier, current).to_multiset().count(project) == current.to_multiset().count(
            project,
        ),
    decreases current.len(),
{
    broadcast use vstd::multiset::group_multiset_axioms;

    reveal(Seq::filter);
    if current.len() > 0 {
        let before = current.drop_last();
        let last = current.last();
        lemma_newly_shared_times(earlier, before, project);
        assert(current =~= before.push(last));
        vstd::seq_lib::to_multiset_build(before, last);
        vstd::seq_lib::to_multiset_build(newly_shared(earlier, before), last);
    } else {
        assert(newly_shared(earlier, current) =~= current);
    }
}

/// When a participant is seen in an update, the observers are told of exactly the
/// projects that it did not share before, each as often as it is announced, and of
/// exactly those that it shared before and does not share any more, each once.
pub proof fn law_project_changes_are_told<F, T, P>(
    room: RoomView<F, T, P>,
    participant: ParticipantView,
    user: UserView,
)
    ensures
        ({
            let effects = room.project_effects(participant, user);
            let earlier = room.projects_of(participant.peer_id);
            let current = participant.projects;
            &&& forall|owner: UserView, project: ProjectView| #[trigger]
                effects.contains(shared_news(owner, project)) <==> owner == user
                    && current.contains(project) && !project_ids(earlier).contains(project.id)
            &&& forall|id: u64| #[trigger]
                effects.contains(unshared_news(id)) <==> project_ids(earlier).contains(id)
                    && !project_ids(current).contains(id)
            &&& forall|owner: UserView, project: ProjectView|
                #[trigger] times(effects, shared_news(owner, project)) == if owner == user
                    && !project_ids(earlier).contains(project.id) {
                    current.to_multiset().count(project)
                } else {
                    0
                }
            &&& forall|id: u64|
                #[trigger] times(effects, unshared_news(id)) == if project_ids(earlier).contains(id)
                    && !project_ids(current).contains(id) {
                    1nat
                } else {
                    0
                }
        }),
{
    let effects = room.project_effects(participant, user);
    let earlier = room.projects_of(participant.peer_id);
    let current = participant.projects;
    let fresh = newly_shared(earlier, current);
    let gone = no_longer_shared(earlier, current);
    let shared = shared_effects::<P>(user, fresh);
    let unshared = unshared_effects::<P>(gone);
    lemma_no_longer_shared(earlier, current);
    let is_new = |p: ProjectView| !project_ids(earlier).contains(p.id);
    assert forall|owner: UserView, project: ProjectView| #[trigger]
        effects.contains(shared_news(owner, project)) <==> owner == user && current.contains(
            project,
        ) && !project_ids(earlier).contains(project.id) by {
        if effects.contains(shared_news(owner, project)) {
            let i = choose|i: int|
                0 <= i < effects.len() && effects[i] == shared_news::<P>(owner, project);
            if i < shared.len() {
                assert(effects[i] == shared[i]);
                assert(fresh[i].id == project.id);
                assert(fresh[i] == project);
                assert(fresh.contains(project));
                current.lemma_filter_contains_rev(is_new, project);
            } else {
                assert(effects[i] == unshared[i - shared.len()]);
            }
        }
        if owner == user && current.contains(project) && !project_ids(earlier).contains(
            project.id,
        ) {
            let k = choose|k: int| 0 <= k < current.len() && current[k] == project;
            assert(is_new(current[k]));
            assert(fresh.contains(current[k]));
            let i = choose|i: int| 0 <= i < fresh.len() && fresh[i] == project;
            assert(effects[i] == shared[i]);
            assert(effects[i] == shared_news::<P>(owner, project));
        }
    }
    assert forall|id: u64| #[trigger]
        effects.contains(unshared_news(id)) <==> gone.contains(id) by {
        if effects.contains(unshared_news(id)) {
            let i = choose|i: int|
                0 <= i < effects.len() && effects[i] == unshared_news::<P>(id);
            if i < shared.len() {
                assert(effects[i] == shared[i]);
            } else {
                assert(effects[i] == unshared[i - shared.len()]);
                assert(gone[i - shared.len()] == id);
            }
        }
        if gone.contains(id) {
            let i = choose|i: int| 0 <= i < gone.len() && gone[i] == id;
            assert(effects[shared.len() + i] == unshared[i]);
        }
    }
    assert forall|owner: UserView, project: ProjectView|
        #[trigger] times(effects, shared_news(owner, project)) == if owner == user && !project_ids(
            earlier,
        ).contains(project.id) {
            current.to_multiset().count(project)
        } else {
            0
        } by {
        let news = shared_news::<P>(owner, project);
        if owner == user && !project_ids(earlier).contains(project.id) {
            lemma_times_add(shared, unshared, news);
            lemma_shared_times::<P>(user, fresh, project);
            lemma_newly_shared_times(earlier, current, project);
            lemma_never(unshared, news);
        } else {
            vstd::seq_lib::to_multiset_contains(effects, news);
        }
    }
    assert forall|id: u64|
        #[trigger] times(effects, unshared_news(id)) == if gone.contains(id) {
            1nat
        } else {
            0
        } by {
        let news = unshared_news::<P>(id);
        vstd::seq_lib::to_multiset_contains(effects, news);
        if gone.contains(id) {
            lemma_times_add(shared, unshared, news);
            lemma_never(shared, news);
            let i = choose|i: int| 0 <= i < gone.len() && gone[i] == id;
            assert forall|j: int| 0 <= j < unshared.len() && j != i implies #[trigger] unshared[j]
                != unshared[i] by {
                assert(gone[j] != gone[i]);
            }
            lemma_once(unshared, i);
        } else {
            assert(!effects.contains(news));
        }
    }
}

/// Taking over tracks makes no news of projects.
proof fn lemma_tracks_make_no_news<F, T, P>(
    room: RoomView<F, T, P>,
    tracks: Seq<SubscribedTrackView<T>>,
)
    ensures
        forall|i: int|
            0 <= i < room.subscribe_all(tracks).effects.len() ==> !(
            #[trigger] room.subscribe_all(tracks).effects[i] is Emit),
    decreases tracks.len(),
{
    if tracks.len() > 0 {
        lemma_tracks_make_no_news(room, tracks.drop_last());
    }
}

/// What a concatenation holds, one of its parts holds.
proof fn lemma_contains_add<A>(a: Seq<A>, b: Seq<A>, x: A)
    ensures
        (a + b).contains(x) <==> a.contains(x) || b.contains(x),
{
    if a.contains(x) {
        let i = choose|i: int| 0 <= i < a.len() && a[i] == x;
        assert((a + b)[i] == x);
    }
    if b.contains(x) {
        let i = choose|i: int| 0 <= i < b.len() && b[i] == x;
        assert((a + b)[a.len() + i] == x);
    }
    if (a + b).contains(x) {
        let i = choose|i: int| 0 <= i < (a + b).len() && (a + b)[i] == x;
        if i < a.len() {
            assert(a[i] == x);
        } else {
            assert(b[i - a.len()] == x);
        }
    }
}

/// The projects that the peer shares once the first `n` participants of an update have
/// been seen: those of its last sighting, or those that it shares in the room.
pub open spec fn projects_seen<F, T, P>(
    room: RoomView<F, T, P>,
    participants: Seq<ParticipantView>,
    n: int,
    peer_id: PeerId,
) -> Seq<ProjectView>
    decreases n,
{
    if n <= 0 {
        room.projects_of(peer_id)
    } else if participants[n - 1].peer_id == peer_id {
        participants[n - 1].projects
    } else {
        projects_seen(room, participants, n - 1, peer_id)
    }
}

proof fn lemma_projects_seen<F, T, P>(
    room: RoomView<F, T, P>,
    participants: Seq<ParticipantView>,
    users: Seq<UserView>,
    tracks: Seq<Seq<SubscribedTrackView<T>>>,
    n: nat,
    peer_id: PeerId,
)
    requires
        n <= participants.len(),
    ensures
        room.apply_participants(participants, users, tracks, n).room.projects_of(peer_id)
            == projects_seen(room, participants, n as int, peer_id),
    decreases n,
{
    if n > 0 {
        let k = n - 1;
        lemma_projects_seen(room, participants, users, tracks, k as nat, peer_id);
        let before = room.apply_participants(participants, users, tracks, k as nat).room;
        lemma_apply_participant(before, participants[k], users[k], tracks_at(tracks, k));
        let seen = before.with_participant(participants[k], users[k]);
        let after = before.apply_participant(participants[k], users[k], tracks_at(tracks, k)).room;
        assert(seen.remote_participants.dom().contains(peer_id)
            == after.remote_participants.dom().contains(peer_id));
        assert(seen.remote_participants.contains_key(peer_id)
            == after.remote_participants.contains_key(peer_id));
    }
}

/// Whether `owner`, one of the first `n` users of an update, shares `project` in it and
/// its peer did not share it before.
pub open spec fn begun_to_share<F, T, P>(
    room: RoomView<F, T, P>,
    participants: Seq<ParticipantView>,
    users: Seq<UserView>,
    n: int,
    owner: UserView,
    project: ProjectView,
) -> bool {
    exists|i: int|
        0 <= i < n && #[trigger] users[i] == owner && participants[i].projects.contains(project)
            && !project_ids(
            projects_seen(room, participants, i, participants[i].peer_id),
        ).contains(project.id)
}

/// Whether one of the first `n` participants of an update shared the project before
/// and does not share it in the update.
pub open spec fn ceased_to_share<F, T, P>(
    room: RoomView<F, T, P>,
    participants: Seq<ParticipantView>,
    n: int,
    project_id: u64,
) -> bool {
    exists|i: int|
        0 <= i < n && project_ids(
            projects_seen(room, participants, i, (#[trigger] participants[i]).peer_id),
        ).contains(project_id) && !project_ids(participants[i].projects).contains(project_id)
}

/// What the observers are told of the projects of the participant at `i` of an update.
spec fn news_at<F, T, P>(
    room: RoomView<F, T, P>,
    participants: Seq<ParticipantView>,
    users: Seq<UserView>,
    tracks: Seq<Seq<SubscribedTrackView<T>>>,
    i: int,
) -> Seq<EffectView<P>> {
    room.apply_participants(participants, users, tracks, i as nat).room.project_effects(
        participants[i],
        users[i],
    )
}

/// Whether `news` comes of one of the first `n` participants of an update.
spec fn news_of_update<F, T, P>(
    room: RoomView<F, T, P>,
    participants: Seq<ParticipantView>,
    users: Seq<UserView>,
    tracks: Seq<Seq<SubscribedTrackView<T>>>,
    n: int,
    news: EffectView<P>,
) -> bool {
    exists|i: int|
        0 <= i < n && (#[trigger] news_at(room, participants, users, tracks, i)).contains(news)
}

/// The news of the first participants of an update are those of the one and the other.
proof fn lemma_news_of_update<F, T, P>(
    room: RoomView<F, T, P>,
    participants: Seq<ParticipantView>,
    users: Seq<UserView>,
    tracks: Seq<Seq<SubscribedTrackView<T>>>,
    n: nat,
    news: EffectView<P>,
)
    requires
        n <= participants.len(),
        news is Emit,
    ensures
        room.apply_participants(participants, users, tracks, n).effects.contains(news)
            <==> news_of_update(room, participants, users, tracks, n as int, news),
    decreases n,
{
    if n > 0 {
        let i = n - 1;
        lemma_news_of_update(room, participants, users, tracks, i as nat, news);
        let before = room.apply_participants(participants, users, tracks, i as nat);
        let step = before.room.apply_participant(
            participants[i],
            users[i],
            tracks_at(tracks, i),
        );
        lemma_contains_add(before.effects, step.effects, news);
        let own = news_at(room, participants, users, tracks, i);
        let seen = before.room.with_participant(participants[i], users[i]);
        let looked_up = if before.room.looks_up_tracks(participants[i].peer_id) {
            tracks_at(tracks, i)
        } else {
            Seq::empty()
        };
        lemma_tracks_make_no_news(seen, looked_up);
        lemma_contains_add(own, seen.subscribe_all(looked_up).effects, news);
        assert(step.effects.contains(news) <==> own.contains(news));
        if news_of_update(room, participants, users, tracks, i, news) {
            let j = choose|j: int|
                0 <= j < i && (#[trigger] news_at(room, participants, users, tracks, j)).contains(
                    news,
                );
            assert(news_at(room, participants, users, tracks, j).contains(news));
        }
        if news_of_update(room, participants, users, tracks, n as int, news) {
            let j = choose|j: int|
                0 <= j < n && (#[trigger] news_at(room, participants, users, tracks, j)).contains(
                    news,
                );
            assert(j == i || news_of_update(room, participants, users, tracks, i, news));
        }
    }
}

/// Whether one of the participants whose peer id is below `bound` shares the project
/// and its user is not present.
pub open spec fn departed_with<F, T>(
    participants: Map<PeerId, RemoteParticipantView<F, T>>,
    present: Set<u64>,
    bound: nat,
    project_id: u64,
) -> bool {
    exists|peer_id: PeerId|
        peer_id < bound && #[trigger] participants.contains_key(peer_id) && !present.contains(
            participants[peer_id].user.id,
        ) && project_ids(participants[peer_id].projects).contains(project_id)
}

/// What the observers are told of those who have gone is that their projects are no
/// longer shared.
proof fn lemma_departures_are_told<F, T, P>(
    participants: Map<PeerId, RemoteParticipantView<F, T>>,
    present: Set<u64>,
    bound: nat,
)
    requires
        bound <= peer_id_bound(),
    ensures
        forall|id: u64| #[trigger]
            departure_effects::<F, T, P>(participants, present, bound).contains(unshared_news(id))
                <==> departed_with(participants, present, bound, id),
        forall|owner: UserView, project: ProjectView|
            !(#[trigger] departure_effects::<F, T, P>(participants, present, bound).contains(
                shared_news(owner, project),
            )),
    decreases bound,
{
    if bound > 0 {
        let low = (bound - 1) as nat;
        lemma_departures_are_told::<F, T, P>(participants, present, low);
        let last = (bound - 1) as PeerId;
        let before = departure_effects::<F, T, P>(participants, present, low);
        let ids = project_ids(participants[last].projects);
        let own = unshared_effects::<P>(ids);
        assert forall|owner: UserView, project: ProjectView|
            !(#[trigger] departure_effects::<F, T, P>(participants, present, bound).contains(
                shared_news(owner, project),
            )) by {
            lemma_contains_add(before, own, shared_news(owner, project));
        }
        assert forall|id: u64| #[trigger]
            departure_effects::<F, T, P>(participants, present, bound).contains(unshared_news(id))
                <==> departed_with(participants, present, bound, id) by {
            lemma_contains_add(before, own, unshared_news(id));
            if own.contains(unshared_news(id)) {
                let i = choose|i: int| 0 <= i < own.len() && own[i] == unshared_news::<P>(id);
                assert(ids[i] == id);
            }
            if ids.contains(id) {
                let i = choose|i: int| 0 <= i < ids.len() && ids[i] == id;
                assert(own[i] == unshared_news::<P>(id));
            }
            if departed_with(participants, present, low, id) {
                let peer_id = choose|peer_id: PeerId|
                    peer_id < low && #[trigger] participants.contains_key(peer_id)
                        && !present.contains(participants[peer_id].user.id) && project_ids(
                        participants[peer_id].projects,
                    ).contains(id);
                assert(departed_with(participants, present, bound, id));
            }
            if departed_with(participants, present, bound, id) {
                let peer_id = choose|peer_id: PeerId|
                    peer_id < bound && #[trigger] participants.contains_key(peer_id)
                        && !present.contains(participants[peer_id].user.id) && project_ids(
                        participants[peer_id].projects,
                    ).contains(id);
                assert(peer_id == last || departed_with(participants, present, low, id));
            }
        }
    }
}

/// The observers of an update are told exactly these news of projects: which projects a
/// participant in the update has begun to share, which ones a participant has ceased to
/// share, and which ones those who have gone shared.
pub proof fn law_update_is_told<F, T, P>(
    room: RoomView<F, T, P>,
    users: Seq<UserView>,
    pending_users: Option<Seq<UserView>>,
    tracks: Seq<Seq<SubscribedTrackView<T>>>,
)
    requires
        room.pending_room_update is Some,
    ensures
        ({
            let update = room.pending_room_update->0;
            let n = matched_len(update.participants, users);
            let seen = room.update_started(update.local_participant).apply_participants(
                update.participants,
                users,
                tracks,
                n,
            ).room;
            let effects = room.finish_room_update(Some(users), pending_users, tracks).effects;
            &&& forall|owner: UserView, project: ProjectView| #[trigger]
                effects.contains(shared_news(owner, project)) <==> begun_to_share(
                    room,
                    update.participants,
                    users,
                    n as int,
                    owner,
                    project,
                )
            &&& forall|id: u64| #[trigger]
                effects.contains(unshared_news(id)) <==> ceased_to_share(
                    room,
                    update.participants,
                    n as int,
                    id,
                ) || departed_with(
                    seen.remote_participants,
                    seen.participant_user_ids,
                    peer_id_bound(),
                    id,
                )
        }),
{
    let update = room.pending_room_update->0;
    let participants = update.participants;
    let n = matched_len(participants, users);
    let started = room.update_started(update.local_participant);
    let applied = started.apply_participants(participants, users, tracks, n);
    let gone = applied.room.remove_absentees();
    let effects = room.finish_room_update(Some(users), pending_users, tracks).effects;
    lemma_departures_are_told::<F, T, P>(
        applied.room.remote_participants,
        applied.room.participant_user_ids,
        peer_id_bound(),
    );
    assert forall|owner: UserView, project: ProjectView| #[trigger]
        effects.contains(shared_news(owner, project)) <==> begun_to_share(
            room,
            participants,
            users,
            n as int,
            owner,
            project,
        ) by {
        let news = shared_news::<P>(owner, project);
        lemma_news_of_finish(room, users, pending_users, tracks, news);
        assert(!gone.effects.contains(news));
        if news_of_update(started, participants, users, tracks, n as int, news) {
            let i = choose|i: int|
                0 <= i < n && (#[trigger] news_at(started, participants, users, tracks, i)).contains(
                    news,
                );
            lemma_news_at(room, update.local_participant, participants, users, tracks, i);
            assert(users[i] == owner);
        }
        if begun_to_share(room, participants, users, n as int, owner, project) {
            let i = choose|i: int|
                0 <= i < n && #[trigger] users[i] == owner && participants[i].projects.contains(
                    project,
                ) && !project_ids(
                    projects_seen(room, participants, i, participants[i].peer_id),
                ).contains(project.id);
            lemma_news_at(room, update.local_participant, participants, users, tracks, i);
            assert(news_at(started, participants, users, tracks, i).contains(news));
        }
    }
    assert forall|id: u64| #[trigger]
        effects.contains(unshared_news(id)) <==> ceased_to_share(
            room,
            participants,
            n as int,
            id,
        ) || departed_with(
            applied.room.remote_participants,
            applied.room.participant_user_ids,
            peer_id_bound(),
            id,
        ) by {
        let news = unshared_news::<P>(id);
        lemma_news_of_finish(room, users, pending_users, tracks, news);
        if news_of_update(started, participants, users, tracks, n as int, news) {
            let i = choose|i: int|
                0 <= i < n && (#[trigger] news_at(started, participants, users, tracks, i)).contains(
                    news,
                );
            lemma_news_at(room, update.local_participant, participants, users, tracks, i);
            assert(project_ids(
                projects_seen(room, participants, i, participants[i].peer_id),
            ).contains(id));
        }
        if ceased_to_share(room, participants, n as int, id) {
            let i = choose|i: int|
                0 <= i < n && project_ids(
                    projects_seen(room, participants, i, (#[trigger] participants[i]).peer_id),
                ).contains(id) && !project_ids(participants[i].projects).contains(id);
            lemma_news_at(room, update.local_participant, participants, users, tracks, i);
            assert(news_at(started, participants, users, tracks, i).contains(news));
        }
    }
}

/// What the news of one participant of an update are.
proof fn lemma_news_at<F, T, P>(
    room: RoomView<F, T, P>,
    local_participant: Option<ParticipantView>,
    participants: Seq<ParticipantView>,
    users: Seq<UserView>,
    tracks: Seq<Seq<SubscribedTrackView<T>>>,
    i: int,
)
    requires
        0 <= i < participants.len(),
    ensures
        ({
            let started = room.update_started(local_participant);
            let effects = news_at(started, participants, users, tracks, i);
            let earlier = projects_seen(room, participants, i, participants[i].peer_id);
            let current = participants[i].projects;
            &&& forall|owner: UserView, project: ProjectView| #[trigger]
                effects.contains(shared_news(owner, project)) <==> owner == users[i]
                    && current.contains(project) && !project_ids(earlier).contains(project.id)
            &&& forall|id: u64| #[trigger]
                effects.contains(unshared_news(id)) <==> project_ids(earlier).contains(id)
                    && !project_ids(current).contains(id)
        }),
{
    let started = room.update_started(local_participant);
    let peer_id = participants[i].peer_id;
    let before = started.apply_participants(participants, users, tracks, i as nat).room;
    lemma_projects_seen(started, participants, users, tracks, i as nat, peer_id);
    lemma_same_projects_seen(room, local_participant, participants, i, peer_id);
    law_project_changes_are_told(before, participants[i], users[i]);
}

/// The start of an update changes nothing of what the participants share.
proof fn lemma_same_projects_seen<F, T, P>(
    room: RoomView<F, T, P>,
    local_participant: Option<ParticipantView>,
    participants: Seq<ParticipantView>,
    n: int,
    peer_id: PeerId,
)
    ensures
        projects_seen(room.update_started(local_participant), participants, n, peer_id)
            == projects_seen(room, participants, n, peer_id),
    decreases n,
{
    if n > 0 {
        lemma_same_projects_seen(room, local_participant, participants, n - 1, peer_id);
    }
}

/// The news of an update other than that the room has been left.
proof fn lemma_news_of_finish<F, T, P>(
    room: RoomView<F, T, P>,
    users: Seq<UserView>,
    pending_users: Option<Seq<UserView>>,
    tracks: Seq<Seq<SubscribedTrackView<T>>>,
    news: EffectView<P>,
)
    requires
        room.pending_room_update is Some,
        news matches EffectView::Emit(event) && !(event is Left),
    ensures
        ({
            let update = room.pending_room_update->0;
            let n = matched_len(update.participants, users);
            let started = room.update_started(update.local_participant);
            let seen = started.apply_participants(update.participants, users, tracks, n).room;
            room.finish_room_update(Some(users), pending_users, tracks).effects.contains(news)
                <==> news_of_update(started, update.participants, users, tracks, n as int, news)
                || seen.remove_absentees().effects.contains(news)
        }),
{
    let update = room.pending_room_update->0;
    let n = matched_len(update.participants, users);
    let started = room.update_started(update.local_participant);
    let applied = started.apply_participants(update.participants, users, tracks, n);
    let gone = applied.room.remove_absentees();
    let called = gone.room.take_pending_users(pending_users);
    let leaving = called.leave_if_empty().effects;
    let end: Seq<EffectView<P>> = seq![EffectView::Notify];
    lemma_contains_add(applied.effects + gone.effects + leaving, end, news);
    lemma_contains_add(applied.effects + gone.effects, leaving, news);
    lemma_contains_add(applied.effects, gone.effects, news);
    assert(!end.contains(news));
    assert(!leaving.contains(news));
    lemma_news_of_update(started, update.participants, users, tracks, n, news);
}

/// Whether the update agrees with itself on the participants for whom it names the
/// same peer more than once.
pub open spec fn unambiguous(participants: Seq<ParticipantView>, n: int) -> bool {
    forall|i: int, j: int|
        0 <= i < j < n && (#[trigger] participants[i]).peer_id == (
        #[trigger] participants[j]).peer_id ==> {
            &&& participants[i].projects == participants[j].projects
            &&& ParticipantLocation::shown(participants[i].location) == ParticipantLocation::shown(
                participants[j].location,
            )
        }
}

/// Whether the first `n` participants of the update are in the room as the update says.
pub open spec fn reflects<F, T, P>(
    room: RoomView<F, T, P>,
    participants: Seq<ParticipantView>,
    n: int,
) -> bool {
    forall|i: int|
        0 <= i < n ==> {
            let peer_id = (#[trigger] participants[i]).peer_id;
            &&& room.remote_participants.contains_key(peer_id)
            &&& room.remote_participants[peer_id].projects == participants[i].projects
            &&& room.remote_participants[peer_id].location == ParticipantLocation::shown(
                participants[i].location,
            )
        }
}

/// The participants of an unambiguous update are in the room once they have been
/// taken over.
proof fn lemma_update_is_reflected<F, T, P>(
    room: RoomView<F, T, P>,
    participants: Seq<ParticipantView>,
    users: Seq<UserView>,
    tracks: Seq<Seq<SubscribedTrackView<T>>>,
    n: nat,
)
    requires
        n <= participants.len(),
        unambiguous(participants, n as int),
    ensures
        reflects(
            room.apply_participants(participants, users, tracks, n).room,
            participants,
            n as int,
        ),
    decreases n,
{
    if n > 0 {
        let k = n - 1;
        lemma_update_is_reflected(room, participants, users, tracks, k as nat);
        let before = room.apply_participants(participants, users, tracks, k as nat).room;
        lemma_apply_participant(before, participants[k], users[k], tracks_at(tracks, k));
        let seen = before.with_participant(participants[k], users[k]);
        let after = room.apply_participants(participants, users, tracks, n).room;
        assert forall|i: int| 0 <= i < n implies {
            let peer_id = (#[trigger] participants[i]).peer_id;
            &&& after.remote_participants.contains_key(peer_id)
            &&& after.remote_participants[peer_id].projects == participants[i].projects
            &&& after.remote_participants[peer_id].location == ParticipantLocation::shown(
                participants[i].location,
            )
        } by {
            let peer_id = participants[i].peer_id;
            assert(seen.remote_participants.dom().contains(peer_id));
            assert(seen.remote_participants.contains_key(peer_id));
        }
    }
}

/// Taking over participants whom the room reflects already makes no news.
proof fn lemma_reflected_update<F, T, P>(
    room: RoomView<F, T, P>,
    participants: Seq<ParticipantView>,
    users: Seq<UserView>,
    tracks: Seq<Seq<SubscribedTrackView<T>>>,
    n: nat,
)
    requires
        n <= participants.len(),
        reflects(room, participants, n as int),
    ensures
        ({
            let step = room.apply_participants(participants, users, tracks, n);
            &&& step.effects == Seq::<EffectView<P>>::empty()
            &&& step.room.remote_participants == room.remote_participants
        }),
    decreases n,
{
    if n > 0 {
        let k = n - 1;
        lemma_reflected_update(room, participants, users, tracks, k as nat);
        let before = room.apply_participants(participants, users, tracks, k as nat).room;
        let projects = participants[k].projects;
        assert(before.projects_of(participants[k].peer_id) == projects);
        let fresh = newly_shared(projects, projects);
        if fresh.len() > 0 {
            let is_new = |p: ProjectView| !project_ids(projects).contains(p.id);
            assert(is_new(fresh[0]));
            assert(fresh.contains(fresh[0]));
            projects.lemma_filter_contains_rev(is_new, fresh[0]);
            let i = choose|i: int| 0 <= i < projects.len() && projects[i] == fresh[0];
            assert(project_ids(projects)[i] == fresh[0].id);
        }
        let gone = no_longer_shared(projects, projects);
        lemma_no_longer_shared(projects, projects);
        if gone.len() > 0 {
            assert(gone.contains(gone[0]));
        }
        assert(before.project_effects(participants[k], users[k]) =~= Seq::empty());
        let seen = before.with_participant(participants[k], users[k]);
        assert(seen.remote_participants =~= room.remote_participants);
    }
}

/// Nobody has gone where everybody is present.
proof fn lemma_nobody_departs<F, T, P>(
    participants: Map<PeerId, RemoteParticipantView<F, T>>,
    present: Set<u64>,
    bound: nat,
)
    requires
        bound <= peer_id_bound(),
        forall|peer_id: PeerId| #[trigger]
            participants.contains_key(peer_id) ==> present.contains(participants[peer_id].user.id),
    ensures
        departure_effects::<F, T, P>(participants, present, bound) == Seq::<EffectView<P>>::empty(),
    decreases bound,
{
    if bound > 0 {
        lemma_nobody_departs::<F, T, P>(participants, present, (bound - 1) as nat);
    }
}

/// An update that is announced a second time, with nothing in between, changes nothing
/// and makes no news, where it is unambiguous and everybody in it is in the room after
/// the first time.
pub proof fn law_repeated_update_is_no_news<F, T, P>(
    room: RoomView<F, T, P>,
    remote_users: Option<Seq<UserView>>,
    pending_users: Option<Seq<UserView>>,
    tracks: Seq<Seq<SubscribedTrackView<T>>>,
    later_tracks: Seq<Seq<SubscribedTrackView<T>>>,
)
    requires
        room.pending_room_update is Some,
        remote_users matches Some(users) ==> {
            let participants = room.pending_room_update->0.participants;
            let n = matched_len(participants, users);
            let after = room.finish_room_update(remote_users, pending_users, tracks).room;
            &&& unambiguous(participants, n as int)
            &&& forall|i: int|
                0 <= i < n ==> after.remote_participants.contains_key(
                    (#[trigger] participants[i]).peer_id,
                )
        },
    ensures
        ({
            let after = room.finish_room_update(remote_users, pending_users, tracks).room;
            let again = RoomView { pending_room_update: room.pending_room_update, ..after };
            let step = again.finish_room_update(remote_users, pending_users, later_tracks);
            &&& step.room == after
            &&& step.effects == seq![EffectView::<P>::Notify]
        }),
{
    let update = room.pending_room_update->0;
    let participants = update.participants;
    let called = taken_over(room, remote_users, pending_users, tracks);
    let after = room.finish_room_update(remote_users, pending_users, tracks).room;
    let again = RoomView { pending_room_update: room.pending_room_update, ..after };
    let step = again.finish_room_update(remote_users, pending_users, later_tracks);
    lemma_taken_over(room, remote_users, pending_users, tracks);
    let started = room.update_started(update.local_participant);
    let restarted = again.update_started(update.local_participant);
    let taken = restarted.take_remote_users(participants, remote_users, later_tracks);
    if let Some(users) = remote_users {
        let n = matched_len(participants, users);
        lemma_apply_participants(started, participants, users, tracks, n);
        lemma_update_is_reflected(started, participants, users, tracks, n);
        let applied = started.apply_participants(participants, users, tracks, n).room;
        assert(reflects(restarted, participants, n as int)) by {
            assert forall|i: int| 0 <= i < n implies {
                let peer_id = (#[trigger] participants[i]).peer_id;
                &&& restarted.remote_participants.contains_key(peer_id)
                &&& restarted.remote_participants[peer_id].projects == participants[i].projects
                &&& restarted.remote_participants[peer_id].location
                    == ParticipantLocation::shown(participants[i].location)
            } by {
                assert(after.remote_participants.contains_key(participants[i].peer_id));
            }
        }
        lemma_apply_participants(restarted, participants, users, later_tracks, n);
        lemma_reflected_update(restarted, participants, users, later_tracks, n);
        let reapplied = restarted.apply_participants(participants, users, later_tracks, n).room;
        assert(reapplied.participant_user_ids =~= applied.participant_user_ids) by {
            assert forall|user_id: u64|
                reapplied.participant_user_ids.contains(user_id)
                    <==> applied.participant_user_ids.contains(user_id) by {
                assert(sighted_user(participants, n as int, user_id) || !sighted_user(
                    participants,
                    n as int,
                    user_id,
                ));
            }
        }
        lemma_nobody_departs::<F, T, P>(
            reapplied.remote_participants,
            reapplied.participant_user_ids,
            peer_id_bound(),
        );
        assert(reapplied.without_absentees().remote_participants =~= after.remote_participants);
    }
    assert(taken.effects =~= Seq::empty());
    assert(taken.room.remote_participants == after.remote_participants);
    let recalled = taken.room.take_pending_users(pending_users);
    assert(recalled.pending_participants =~= after.pending_participants);
    assert(recalled.participant_user_ids =~= after.participant_user_ids);
    assert(recalled =~= after);
    assert(step.effects =~= seq![EffectView::<P>::Notify]);
}

} // verus!

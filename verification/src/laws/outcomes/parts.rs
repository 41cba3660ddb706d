//! The parts of a room, and the words in which its laws are put.

use crate::connection::{ConnectionMonitor, MonitorStep};
use crate::error::RoomError;
use crate::event::{effects_view, Context, Effect, EffectView, Event, EventView};
use crate::identity::{
    all_digits, begins_too_large, decimal_digits, decimal_value, is_digit,
    law_peer_identity_round_trip, parse_peer_id, peer_id_named, peer_identity, unsigned_part,
    PeerId, PeerIdError,
};
use crate::laws::frame::sighted;
use crate::media::{
    track_lists_view, tracks_view, ScreenTrack, SubscribedTrack, SubscribedTrackView,
};
use crate::model::{first_sighting, matched_len, peer_id_bound, tracks_at, RoomView};
use crate::participant::{
    user_ids, users_view, LocalParticipant, ParticipantLocation, RemoteParticipant, User, UserView,
};
use crate::project::{Project, Worktree};
use crate::proto;
use crate::proto::{
    participant_user_ids, participants_view, project_ids, strings_view, ParticipantProject,
    ParticipantView, ProjectView,
};
use crate::tracks::{Sid, TrackMap};
use vstd::prelude::*;

verus! {

/// Longer names are read from shorter ones. A digit is a name. A digit behind a name adds
/// a decimal place, unless the number gets too large, and then it stays too large.
/// Anything else behind a name spoils it. A plus sign needs a digit behind it.
pub proof fn law_names_are_read_digit_by_digit(name: Seq<char>, c: char)
    ensures
        peer_id_named(Seq::empty()) == Err::<PeerId, PeerIdError>(PeerIdError::Empty),
        ({
            let digit = c as int - '0' as int;
            let longer = peer_id_named(name.push(c));
            &&& name.len() == 0 ==> longer == if '0' <= c <= '9' {
                Ok::<PeerId, PeerIdError>(digit as PeerId)
            } else {
                Err(PeerIdError::InvalidDigit)
            }
            &&& name.len() > 0 ==> match peer_id_named(name) {
                Ok(value) => longer == if !('0' <= c <= '9') {
                    Err::<PeerId, PeerIdError>(PeerIdError::InvalidDigit)
                } else if 10 * value + digit <= u32::MAX {
                    Ok((10 * value + digit) as PeerId)
                } else {
                    Err(PeerIdError::TooLarge)
                },
                Err(PeerIdError::TooLarge) => longer == Err::<PeerId, PeerIdError>(
                    PeerIdError::TooLarge,
                ),
                Err(PeerIdError::InvalidDigit) => longer == if name == seq!['+'] && '0' <= c
                    <= '9' {
                    Ok::<PeerId, PeerIdError>(digit as PeerId)
                } else {
                    Err(PeerIdError::InvalidDigit)
                },
                Err(PeerIdError::Empty) => false,
            }
        }),
{
    let digits = unsigned_part(name);
    let longer = unsigned_part(name.push(c));
    if name.len() == 0 {
        assert(name.push(c) =~= seq![c]);
        if c == '+' {
            assert(longer =~= Seq::<char>::empty());
            lemma_longer_digits(Seq::empty(), '0');
            lemma_nothing_is_too_large();
        } else {
            assert(longer =~= Seq::<char>::empty().push(c));
            lemma_longer_digits(Seq::empty(), c);
            lemma_nothing_is_too_large();
        }
    } else {
        assert(longer =~= digits.push(c));
        lemma_longer_digits(digits, c);
        if digits.len() == 0 {
            assert(name =~= seq!['+']);
            assert(digits =~= Seq::<char>::empty());
            lemma_nothing_is_too_large();
        } else {
            if name == seq!['+'] {
                assert(digits =~= Seq::<char>::empty());
            }
            if all_digits(digits) && !begins_too_large(digits) {
                assert(digits.take(digits.len() as int) =~= digits);
            }
        }
    }
}

proof fn lemma_nothing_is_too_large()
    ensures
        !begins_too_large(Seq::<char>::empty()),
        all_digits(Seq::<char>::empty()),
        decimal_value(Seq::<char>::empty()) == 0,
{
    let nothing = Seq::<char>::empty();
    assert forall|i: int| 0 <= i <= nothing.len() implies decimal_value(#[trigger] nothing.take(i))
        == 0 by {
        assert(nothing.take(i) =~= nothing);
    }
}

/// What a character behind digits makes of them.
proof fn lemma_longer_digits(digits: Seq<char>, c: char)
    ensures
        all_digits(digits.push(c)) <==> all_digits(digits) && is_digit(c),
        is_digit(c) ==> decimal_value(digits.push(c)) == 10 * decimal_value(digits) + (c as int
            - '0' as int),
        begins_too_large(digits.push(c)) <==> begins_too_large(digits) || (all_digits(
            digits.push(c),
        ) && decimal_value(digits.push(c)) > u32::MAX),
{
    let longer = digits.push(c);
    assert(longer.drop_last() =~= digits);
    assert(longer.last() == c);
    if all_digits(longer) {
        assert forall|i: int| 0 <= i < digits.len() implies is_digit(#[trigger] digits[i]) by {
            assert(longer[i] == digits[i]);
        }
        assert(is_digit(longer[digits.len() as int]));
    }
    if begins_too_large(digits) {
        let i = choose|i: int|
            0 <= i <= digits.len() && all_digits(#[trigger] digits.take(i)) && decimal_value(
                digits.take(i),
            ) > u32::MAX;
        assert(longer.take(i) =~= digits.take(i));
        assert(all_digits(longer.take(i)));
    }
    assert(longer.take(longer.len() as int) =~= longer);
    if begins_too_large(longer) {
        let i = choose|i: int|
            0 <= i <= longer.len() && all_digits(#[trigger] longer.take(i)) && decimal_value(
                longer.take(i),
            ) > u32::MAX;
        if i < longer.len() {
            assert(longer.take(i) =~= digits.take(i));
            assert(all_digits(digits.take(i)));
        }
    }
}

/// A name is read as its characters say.
pub proof fn law_names_are_read(name: &str, result: Result<PeerId, PeerIdError>)
    requires
        call_ensures(parse_peer_id, (name,), result),
    ensures
        result == peer_id_named(name@),
{
}

/// The name of a peer is its id in digits, without a zero in front, and is read as that
/// id.
pub proof fn law_peers_are_named_in_digits(peer_id: PeerId, name: String)
    requires
        call_ensures(peer_identity, (peer_id,), name),
    ensures
        name@ == decimal_digits(peer_id as nat),
        peer_id_named(name@) == Ok::<PeerId, PeerIdError>(peer_id),
        name@.len() > 0,
        forall|i: int| 0 <= i < name@.len() ==> '0' <= #[trigger] name@[i] <= '9',
        name@[0] == '0' ==> name@.len() == 1,
{
    law_peer_identity_round_trip(peer_id);
    lemma_digits(peer_id as nat);
}

proof fn lemma_digits(n: nat)
    ensures
        decimal_digits(n).len() > 0,
        forall|i: int|
            0 <= i < decimal_digits(n).len() ==> '0' <= #[trigger] decimal_digits(n)[i] <= '9',
        decimal_digits(n)[0] == '0' ==> n == 0 && decimal_digits(n).len() == 1,
    decreases n,
{
    if n >= 10 {
        lemma_digits(n / 10);
    }
}

/// The location of a participant is what the server says, if it says anything, and
/// outside every project otherwise.
pub proof fn law_location_is_what_the_server_says(
    location: Option<proto::ParticipantLocation>,
    result: Result<ParticipantLocation, RoomError>,
)
    requires
        call_ensures(ParticipantLocation::from_proto, (location,), result),
    ensures
        location is None || location->0.variant is None ==> {
            &&& result == Err::<ParticipantLocation, RoomError>(RoomError::LocationNotProvided)
            &&& ParticipantLocation::shown(location) is External
        },
        location is Some && location->0.variant is Some ==> {
            &&& result == Ok::<ParticipantLocation, RoomError>(
                ParticipantLocation::shown(location),
            )
            &&& ParticipantLocation::shown(location) == match location->0.variant->0 {
                proto::LocationVariant::SharedProject { id } =>
                    ParticipantLocation::SharedProject { project_id: id },
                proto::LocationVariant::UnsharedProject => ParticipantLocation::UnsharedProject,
                proto::LocationVariant::External => ParticipantLocation::External,
            }
        },
{
}

/// The failure of a service is told in its words, and that of a creation as such, with
/// what led to it.
pub proof fn law_messages_tell_what_failed(
    text: String,
    cause: RoomError,
    service: String,
    creation: String,
    because: String,
)
    requires
        call_ensures(RoomError::message, (&RoomError::Service(text),), service),
        call_ensures(
            RoomError::message,
            (&RoomError::CreationFailed(Box::new(cause)),),
            creation,
        ),
        call_ensures(RoomError::message, (&cause,), because),
    ensures
        service@ == text@,
        creation@ == "room creation failed: "@ + because@,
{
    reveal_with_fuel(RoomError::text, 2);
}

/// A map of tracks gives back what was inserted last for an id and not removed since,
/// and inserting and removing touch no other id.
pub proof fn law_tracks_are_found_again<V>(
    inserted: &mut TrackMap<V>,
    removed: &mut TrackMap<V>,
    id: Sid,
    value: V,
    taken: Option<V>,
    other: &Sid,
    found: Option<&V>,
    map: &TrackMap<V>,
)
    requires
        call_ensures(TrackMap::<V>::insert, (inserted, id, value), ()),
        call_ensures(TrackMap::<V>::remove, (removed, &id), taken),
        call_ensures(TrackMap::<V>::get, (map, other), found),
    ensures
        final(inserted)@.contains_key(id@) && final(inserted)@[id@] == value,
        forall|k: Seq<char>|
            k != id@ ==> (#[trigger] final(inserted)@.contains_key(k)
                <==> old(inserted)@.contains_key(k)),
        forall|k: Seq<char>|
            k != id@ ==> #[trigger] final(inserted)@[k] == old(inserted)@[k],
        !final(removed)@.contains_key(id@),
        taken is Some <==> old(removed)@.contains_key(id@),
        taken matches Some(v) ==> v == old(removed)@[id@],
        forall|k: Seq<char>|
            k != id@ ==> (#[trigger] final(removed)@.contains_key(k)
                <==> old(removed)@.contains_key(k)),
        forall|k: Seq<char>| k != id@ ==> #[trigger] final(removed)@[k] == old(removed)@[k],
        found is Some <==> map@.contains_key(other@),
        found matches Some(v) ==> *v == map@[other@],
{
}

/// A new map of tracks is empty. The ids of a map are those that can be found, each once,
/// and their number is its length.
pub proof fn law_track_ids_are_those_found<V>(
    empty: TrackMap<V>,
    map: &TrackMap<V>,
    len: usize,
    ids: Vec<Sid>,
)
    requires
        call_ensures(TrackMap::<V>::new, (), empty),
        call_ensures(TrackMap::<V>::len, (map,), len),
        call_ensures(TrackMap::<V>::ids, (map,), ids),
    ensures
        forall|k: Seq<char>| !empty@.contains_key(k),
        len == ids@.len(),
        forall|k: Seq<char>| #[trigger]
            map@.contains_key(k) <==> exists|i: int| 0 <= i < ids@.len() && #[trigger] ids@[i]@ == k,
        forall|i: int, j: int|
            0 <= i < j < ids@.len() ==> #[trigger] ids@[i]@ != #[trigger] ids@[j]@,
{
    let views = ids@.map_values(|id: Sid| id@);
    views.unique_seq_to_set();
    assert forall|k: Seq<char>| #[trigger] map@.contains_key(k) <==> exists|i: int|
        0 <= i < ids@.len() && #[trigger] ids@[i]@ == k by {
        assert(map@.dom().contains(k) <==> views.to_set().contains(k));
        if views.contains(k) {
            let i = choose|i: int| 0 <= i < views.len() && views[i] == k;
            assert(ids@[i]@ == k);
        }
        if exists|i: int| 0 <= i < ids@.len() && #[trigger] ids@[i]@ == k {
            let i = choose|i: int| 0 <= i < ids@.len() && #[trigger] ids@[i]@ == k;
            assert(views[i] == k);
        }
    }
    assert forall|i: int, j: int| 0 <= i < j < ids@.len() implies #[trigger] ids@[i]@
        != #[trigger] ids@[j]@ by {
        assert(views[i] != views[j]);
    }
}

/// What is asked for comes out in the order in which it was asked for, and nothing else
/// does.
pub proof fn law_effects_come_out_in_order<P>(
    fresh: Context<P>,
    pushed: &mut Context<P>,
    effect: Effect<P>,
    notified: &mut Context<P>,
    emitted: &mut Context<P>,
    event: Event,
    cx: Context<P>,
    effects: Vec<Effect<P>>,
)
    requires
        call_ensures(Context::<P>::new, (), fresh),
        call_ensures(Context::<P>::push, (pushed, effect), ()),
        call_ensures(Context::<P>::notify, (notified,), ()),
        call_ensures(Context::<P>::emit, (emitted, event), ()),
        call_ensures(Context::<P>::into_effects, (cx,), effects),
    ensures
        fresh@.len() == 0,
        final(pushed)@ == old(pushed)@.push(effect@),
        final(notified)@ == old(notified)@.push(EffectView::Notify),
        final(emitted)@ == old(emitted)@.push(EffectView::Emit(event@)),
        effects@.len() == cx@.len(),
        forall|i: int| 0 <= i < effects@.len() ==> #[trigger] effects@[i]@ == cx@[i],
{
    assert forall|i: int| 0 <= i < effects@.len() implies #[trigger] effects@[i]@ == cx@[i] by {
        assert(effects_view(effects@)[i] == effects@[i]@);
    }
}

/// A monitor waits only if the connection is up at first. It asks to leave if the
/// connection is not up at first, and at any status after that. After that, and when
/// there are no more statuses after the first, there is nothing more to watch.
pub proof fn law_monitor_asks_to_leave(
    fresh: ConnectionMonitor,
    monitor: &mut ConnectionMonitor,
    status: Option<bool>,
    step: MonitorStep,
)
    requires
        call_ensures(ConnectionMonitor::new, (), fresh),
        call_ensures(ConnectionMonitor::observe, (monitor, status), step),
    ensures
        fresh is Starting,
        *old(monitor) is Starting && status == Some(true) ==> step is Wait
            && *final(monitor) is Connected,
        *old(monitor) is Starting && status != Some(true) ==> step is Leave
            && *final(monitor) is Finished,
        *old(monitor) is Connected && status is Some ==> step is Leave && *final(monitor) is Finished,
        *old(monitor) is Connected && status is None ==> step is Stop && *final(monitor) is Finished,
        *old(monitor) is Finished ==> step is Stop && *final(monitor) is Finished,
{
}

/// What the server reports is kept whole.
pub proof fn law_reports_are_kept_whole(
    project: ParticipantProject,
    participant: proto::Participant,
    participants: Seq<proto::Participant>,
    user: User,
    users: Seq<User>,
)
    ensures
        project@.id == project.id,
        project@.worktree_root_names.len() == project.worktree_root_names@.len(),
        forall|i: int|
            0 <= i < project.worktree_root_names@.len()
                ==> #[trigger] project@.worktree_root_names[i]
                == project.worktree_root_names@[i]@,
        participant@.user_id == participant.user_id,
        participant@.peer_id == participant.peer_id,
        participant@.location == participant.location,
        participant@.projects.len() == participant.projects@.len(),
        forall|i: int|
            0 <= i < participant.projects@.len() ==> #[trigger] participant@.projects[i]
                == participant.projects@[i]@,
        participants_view(participants).len() == participants.len(),
        forall|i: int|
            0 <= i < participants.len() ==> #[trigger] participants_view(participants)[i]
                == participants[i]@,
        user@.id == user.id,
        user@.github_login == user.github_login@,
        users_view(users).len() == users.len(),
        forall|i: int| 0 <= i < users.len() ==> #[trigger] users_view(users)[i] == users[i]@,
{
}

/// What is known of people and tracks is shown whole.
pub proof fn law_people_are_shown_whole<F, T>(
    local: LocalParticipant,
    remote: RemoteParticipant<F, T>,
    track: SubscribedTrack<T>,
    lists: Seq<Vec<SubscribedTrack<T>>>,
)
    ensures
        local@.active_project == local.active_project,
        local@.projects.len() == local.projects@.len(),
        forall|i: int|
            0 <= i < local.projects@.len() ==> #[trigger] local@.projects[i]
                == local.projects@[i]@,
        remote@.user == remote.user@,
        remote@.location == remote.location,
        remote@.tracks == remote.tracks@,
        remote@.projects.len() == remote.projects@.len(),
        forall|i: int|
            0 <= i < remote.projects@.len() ==> #[trigger] remote@.projects[i]
                == remote.projects@[i]@,
        track@.sid == track.sid@,
        track@.publisher_id == track.publisher_id@,
        track@.live_kit_track == track.live_kit_track,
        track_lists_view(lists).len() == lists.len(),
        forall|i: int, j: int|
            0 <= i < lists.len() && 0 <= j < lists[i]@.len() ==> #[trigger] track_lists_view(
                lists,
            )[i][j] == lists[i]@[j]@,
{
    assert forall|i: int, j: int|
        0 <= i < lists.len() && 0 <= j < lists[i]@.len() implies #[trigger] track_lists_view(
        lists,
    )[i][j] == lists[i]@[j]@ by {
        assert(track_lists_view(lists)[i] == tracks_view(lists[i]@));
    }
}

/// Events and effects are shown whole.
pub proof fn law_events_are_shown_whole<P>(event: Event, effect: Effect<P>)
    ensures
        match event {
            Event::Frame { participant_id, track_id } => event@ == (EventView::Frame {
                participant_id,
                track_id: track_id@,
            }),
            Event::RemoteProjectShared { owner, project_id, worktree_root_names } => {
                &&& event@ is RemoteProjectShared
                &&& event@->owner == owner@
                &&& event@->RemoteProjectShared_project_id == project_id
                &&& event@->worktree_root_names == worktree_root_names@.map_values(
                    |name: String| name@,
                )
            },
            Event::RemoteProjectUnshared { project_id } => event@ == (
            EventView::RemoteProjectUnshared { project_id }),
            Event::Left => event@ is Left,
        },
        match effect {
            Effect::Notify => effect@ is Notify,
            Effect::Emit(event) => effect@ == EffectView::<P>::Emit(event@),
            Effect::WatchConnection => effect@ is WatchConnection,
            Effect::ConnectLiveKit { server_url, token } => effect@ == (EffectView::<
                P,
            >::ConnectLiveKit { server_url: server_url@, token: token@ }),
            Effect::DisconnectLiveKit => effect@ is DisconnectLiveKit,
            Effect::Subscribe => effect@ is Subscribe,
            Effect::Unsubscribe => effect@ is Unsubscribe,
            Effect::LeaveRoom { room_id } => effect@ == (EffectView::<P>::LeaveRoom { room_id }),
            Effect::UnpublishTrack(track) => effect@ == EffectView::<P>::UnpublishTrack(track),
            Effect::LogError(error) => effect@ == EffectView::<P>::LogError(error),
        },
{
    if let Event::RemoteProjectShared { owner, project_id, worktree_root_names } = event {
        assert(strings_view(worktree_root_names@) =~= worktree_root_names@.map_values(
            |name: String| name@,
        ));
    }
}

/// What the words mean in which updates are spoken of.
pub proof fn law_words_of_updates<F, T, P>(
    room: RoomView<F, T, P>,
    participants: Seq<ParticipantView>,
    users: Seq<UserView>,
    projects: Seq<ProjectView>,
    tracks: Seq<Seq<SubscribedTrackView<T>>>,
    i: int,
    peer_id: PeerId,
)
    ensures
        matched_len(participants, users) <= participants.len(),
        matched_len(participants, users) <= users.len(),
        matched_len(participants, users) == participants.len() || matched_len(participants, users)
            == users.len(),
        0 <= i < participants.len() ==> (first_sighting(participants, i) <==> !sighted(
            participants,
            i,
            participants[i].peer_id,
        )),
        tracks_at(tracks, i) == if 0 <= i < tracks.len() {
            tracks[i]
        } else {
            Seq::empty()
        },
        project_ids(projects).len() == projects.len(),
        0 <= i < projects.len() ==> project_ids(projects)[i] == projects[i].id,
        user_ids(users).len() == users.len(),
        0 <= i < users.len() ==> user_ids(users)[i] == users[i].id,
        participant_user_ids(participants).len() == participants.len(),
        0 <= i < participants.len() ==> participant_user_ids(participants)[i]
            == participants[i].user_id,
        room.projects_of(peer_id) == if room.remote_participants.contains_key(peer_id) {
            room.remote_participants[peer_id].projects
        } else {
            Seq::empty()
        },
        room.looks_up_tracks(peer_id) <==> room.live_kit is Some
            && !room.remote_participants.contains_key(peer_id),
        peer_id_bound() == u32::MAX + 1,
{
    if 0 <= i < participants.len() {
        if !sighted(participants, i, participants[i].peer_id) {
            assert forall|j: int| 0 <= j < i implies participants[j].peer_id
                != participants[i].peer_id by {}
        }
    }
}

/// At the start of an update nobody is counted and none waits any more, and the local
/// participant shares what the update says. All else is as it was.
pub proof fn law_update_starts_without_anybody<F, T, P>(
    room: RoomView<F, T, P>,
    local: Option<ParticipantView>,
)
    ensures
        ({
            let started = room.update_started(local);
            &&& started.participant_user_ids == Set::<u64>::empty()
            &&& started.pending_room_update is None
            &&& started.local_participant.active_project == room.local_participant.active_project
            &&& local matches Some(local) ==> started.local_participant.projects == local.projects
            &&& local is None ==> started.local_participant.projects.len() == 0
            &&& started == (RoomView {
                participant_user_ids: started.participant_user_ids,
                pending_room_update: None,
                local_participant: started.local_participant,
                ..room
            })
        }),
{
}

/// Copies are like what they are copied from, and nothing is shared by default.
pub proof fn law_copies_are_alike<P>(
    user: &User,
    same_user: User,
    event: &Event,
    same_event: Event,
    local: LocalParticipant,
    track: ScreenTrack<P>,
)
    requires
        call_ensures(User::clone, (user,), same_user),
        call_ensures(Event::clone, (event,), same_event),
        call_ensures(LocalParticipant::default, (), local),
        call_ensures(ScreenTrack::<P>::default, (), track),
    ensures
        same_user@ == user@,
        same_event@ == event@,
        local@.projects.len() == 0,
        local@.active_project is None,
        track is NotShared,
{
}

/// A folder is described to the server as it is, and so are all folders of a project.
pub proof fn law_folders_are_described_as_they_are(
    folder: &Worktree,
    told: proto::WorktreeMetadata,
    project: &Project,
    room_id: u64,
    request: proto::ShareProject,
)
    requires
        call_ensures(Worktree::to_proto, (folder,), told),
        call_ensures(Project::to_share_request, (project, room_id), request),
    ensures
        told.id == folder.id,
        told.root_name@ == folder.root_name@,
        told.visible == folder.is_visible,
        told.abs_path@ == folder.abs_path@,
        request.room_id == room_id,
        request.worktrees@.len() == project.worktrees@.len(),
        forall|i: int|
            0 <= i < request.worktrees@.len() ==> {
                let described = #[trigger] request.worktrees@[i];
                let actual = project.worktrees@[i];
                &&& described.id == actual.id
                &&& described.root_name@ == actual.root_name@
                &&& described.visible == actual.is_visible
                &&& described.abs_path@ == actual.abs_path@
            },
{
    assert(request@.worktrees.len() == project.worktrees@.len());
    assert forall|i: int| 0 <= i < request.worktrees@.len() implies {
        let described = #[trigger] request.worktrees@[i];
        let actual = project.worktrees@[i];
        &&& described.id == actual.id
        &&& described.root_name@ == actual.root_name@
        &&& described.visible == actual.is_visible
        &&& described.abs_path@ == actual.abs_path@
    } by {
        assert(request@.worktrees[i] == request.worktrees@[i]@);
        assert(request@.worktrees[i] == project.worktrees@[i].described());
    }
}

} // verus!

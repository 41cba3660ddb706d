use call::proto::{LiveKitConnectionInfo, LocationVariant, ParticipantProject, RoomUpdated};
use call::{
    proto, Context, Effect, Event, ParticipantLocation, PeerIdError, Room, RoomError, SubscribedTrack, User,
    UserFetch,
};

type TestRoom = Room<u8, &'static str, u32>;

fn open() -> TestRoom {
    let info = LiveKitConnectionInfo {
        server_url: String::new(),
        token: String::new(),
    };
    Room::new(1, Some(info), &mut Context::new())
}

fn user(id: u64) -> User {
    User {
        id,
        github_login: format!("user-{}", id),
    }
}

fn users(ids: &[u64]) -> Option<Vec<User>> {
    Some(ids.iter().map(|id| user(*id)).collect())
}

fn project(id: u64) -> ParticipantProject {
    ParticipantProject {
        id,
        worktree_root_names: vec![format!("root-{}", id), "src".to_string()],
    }
}

fn participant(user_id: u64, peer_id: u32, project_ids: &[u64]) -> proto::Participant {
    proto::Participant {
        user_id,
        peer_id,
        projects: project_ids.iter().map(|id| project(*id)).collect(),
        location: None,
    }
}

fn message(participants: Vec<proto::Participant>, pending: &[u64]) -> proto::Room {
    proto::Room {
        id: 1,
        participants,
        pending_participant_user_ids: pending.to_vec(),
    }
}

fn shared(owner: u64, project_id: u64) -> Effect<u32> {
    Effect::Emit(Event::RemoteProjectShared {
        owner: user(owner),
        project_id,
        worktree_root_names: vec![format!("root-{}", project_id), "src".to_string()],
    })
}

fn unshared(project_id: u64) -> Effect<u32> {
    Effect::Emit(Event::RemoteProjectUnshared { project_id })
}

/// Announces the participants, who are fetched without fail, and finishes the update.
fn update(room: &mut TestRoom, participants: Vec<proto::Participant>, pending: &[u64]) -> Vec<Effect<u32>> {
    let mut cx = Context::new();
    let fetch = room.apply_room_update(message(participants, pending), Some(100), &mut Context::new());
    room.finish_room_update(
        users(&fetch.remote_user_ids),
        users(&fetch.pending_user_ids),
        vec![],
        &mut cx,
    );
    cx.into_effects()
}

fn peers(room: &TestRoom) -> Vec<(u32, u64)> {
    room.remote_participants()
        .iter()
        .map(|(peer_id, participant)| (*peer_id, participant.user.id))
        .collect()
}

#[test]
fn an_update_without_a_room_is_invalid() {
    let mut room = open();
    let mut cx = Context::new();
    assert_eq!(
        room.handle_room_updated(RoomUpdated { room: None }, Some(1), &mut cx),
        Err(RoomError::InvalidRoom)
    );
    assert!(!room.has_pending_room_update());
    assert_eq!(cx.into_effects(), vec![]);
}

#[test]
fn an_update_waits_for_its_users() {
    let mut room = open();
    let mut cx = Context::new();
    assert_eq!(
        room.handle_room_updated(
            RoomUpdated {
                room: Some(message(vec![participant(2, 20, &[])], &[3])),
            },
            Some(1),
            &mut cx,
        ),
        Ok(UserFetch {
            remote_user_ids: vec![2],
            pending_user_ids: vec![3],
        })
    );
    assert!(room.has_pending_room_update());
    assert!(room.remote_participants().is_empty());
    assert_eq!(cx.into_effects(), vec![Effect::Notify]);
}

#[test]
fn the_local_user_is_set_apart() {
    let mut room = open();
    let participants = || {
        vec![
            participant(1, 10, &[]),
            participant(2, 20, &[]),
            participant(3, 30, &[]),
            participant(4, 40, &[]),
        ]
    };
    // The last participant moves into the place of the local one.
    let mut fetched = |local: Option<u64>| {
        room.apply_room_update(message(participants(), &[]), local, &mut Context::new())
            .remote_user_ids
    };
    assert_eq!(fetched(Some(2)), vec![1, 4, 3]);
    assert_eq!(fetched(Some(4)), vec![1, 2, 3]);
    assert_eq!(fetched(Some(5)), vec![1, 2, 3, 4]);
    assert_eq!(fetched(None), vec![1, 2, 3, 4]);
}

#[test]
fn only_the_first_local_user_is_set_apart() {
    let mut room = open();
    let participants = vec![
        participant(1, 10, &[5]),
        participant(2, 20, &[]),
        participant(1, 11, &[6]),
    ];
    let fetch = room.apply_room_update(message(participants, &[]), Some(1), &mut Context::new());
    assert_eq!(fetch.remote_user_ids, vec![1, 2]);
    room.finish_room_update(users(&[1, 2]), users(&[]), vec![], &mut Context::new());
    assert_eq!(room.local_participant().projects, vec![project(5)]);
    assert_eq!(peers(&room), vec![(11, 1), (20, 2)]);
}

#[test]
fn an_update_is_taken_over() {
    let mut room = open();
    let mut alice = participant(1, 10, &[5, 6]);
    alice.location = Some(proto::ParticipantLocation {
        variant: Some(LocationVariant::SharedProject { id: 5 }),
    });
    let mut bob = participant(2, 20, &[]);
    bob.location = Some(proto::ParticipantLocation {
        variant: Some(LocationVariant::UnsharedProject),
    });
    let local = participant(100, 1, &[9]);
    let effects = update(&mut room, vec![alice, bob, local], &[3]);
    assert_eq!(effects, vec![shared(1, 5), shared(1, 6), Effect::Notify]);
    assert_eq!(room.local_participant().projects, vec![project(9)]);
    assert_eq!(peers(&room), vec![(10, 1), (20, 2)]);
    let alice = &room.remote_participants()[&10];
    assert_eq!(alice.user, user(1));
    assert_eq!(alice.projects, vec![project(5), project(6)]);
    assert_eq!(
        alice.location,
        ParticipantLocation::SharedProject { project_id: 5 }
    );
    assert_eq!(alice.tracks.len(), 0);
    assert_eq!(
        room.remote_participants()[&20].location,
        ParticipantLocation::UnsharedProject
    );
    assert_eq!(room.pending_participants(), &[user(3)]);
    for user_id in [1, 2, 3] {
        assert!(room.contains_participant(user_id));
    }
    assert!(!room.contains_participant(100));
    assert!(!room.has_pending_room_update());
    assert!(room.check_invariants());
}

#[test]
fn a_missing_location_is_outside() {
    let mut room = open();
    let mut alice = participant(1, 10, &[]);
    alice.location = Some(proto::ParticipantLocation { variant: None });
    update(&mut room, vec![alice, participant(2, 20, &[])], &[]);
    for peer_id in [10, 20] {
        assert_eq!(
            room.remote_participants()[&peer_id].location,
            ParticipantLocation::External
        );
    }
    assert_eq!(
        ParticipantLocation::from_proto(None),
        Err(RoomError::LocationNotProvided)
    );
    assert_eq!(
        ParticipantLocation::from_proto(Some(proto::ParticipantLocation {
            variant: Some(LocationVariant::External),
        })),
        Ok(ParticipantLocation::External)
    );
}

#[test]
fn changes_of_projects_are_told() {
    let mut room = open();
    update(&mut room, vec![participant(1, 10, &[5, 6, 7])], &[]);
    let effects = update(&mut room, vec![participant(1, 10, &[8, 6, 9])], &[]);
    assert_eq!(
        effects,
        vec![
            shared(1, 8),
            shared(1, 9),
            unshared(5),
            unshared(7),
            Effect::Notify,
        ]
    );
    assert_eq!(
        room.remote_participants()[&10].projects,
        vec![project(8), project(6), project(9)]
    );
}

#[test]
fn an_unshared_project_is_told_once() {
    let mut room = open();
    let effects = update(&mut room, vec![participant(1, 10, &[5, 5, 6])], &[]);
    assert_eq!(
        effects,
        vec![shared(1, 5), shared(1, 5), shared(1, 6), Effect::Notify]
    );
    let effects = update(&mut room, vec![participant(1, 10, &[])], &[]);
    assert_eq!(effects, vec![unshared(5), unshared(6), Effect::Notify]);
}

#[test]
fn a_repeated_update_is_no_news() {
    let mut room = open();
    let participants = || vec![participant(2, 20, &[7]), participant(1, 10, &[5, 6])];
    update(&mut room, participants(), &[3]);
    let before = format!("{:?}", peers(&room));
    assert_eq!(update(&mut room, participants(), &[3]), vec![Effect::Notify]);
    assert_eq!(format!("{:?}", peers(&room)), before);
    assert!(room.check_invariants());
}

#[test]
fn those_who_are_gone_no_longer_share() {
    let mut room = open();
    update(
        &mut room,
        vec![
            participant(3, 30, &[9, 9]),
            participant(2, 20, &[]),
            participant(1, 10, &[5, 6]),
        ],
        &[],
    );
    let effects = update(&mut room, vec![participant(2, 20, &[])], &[]);
    assert_eq!(
        effects,
        vec![
            unshared(5),
            unshared(6),
            unshared(9),
            unshared(9),
            Effect::Notify,
        ]
    );
    assert_eq!(peers(&room), vec![(20, 2)]);
    assert!(!room.contains_participant(1));
    assert!(room.check_invariants());
}

#[test]
fn a_participant_keeps_the_user() {
    let mut room = open();
    update(&mut room, vec![participant(1, 10, &[5])], &[]);
    // The peer comes back as another user, while the first is there under another peer.
    let effects = update(
        &mut room,
        vec![participant(2, 10, &[6]), participant(1, 11, &[])],
        &[],
    );
    assert_eq!(effects, vec![shared(2, 6), unshared(5), Effect::Notify]);
    assert_eq!(peers(&room), vec![(10, 1), (11, 1)]);
    assert_eq!(room.remote_participants()[&10].projects, vec![project(6)]);
}

#[test]
fn a_reconnected_user_is_counted_once() {
    let mut room = open();
    update(&mut room, vec![participant(1, 10, &[])], &[]);
    update(&mut room, vec![participant(1, 11, &[])], &[]);
    // The first connection stays for as long as its user is there.
    assert_eq!(peers(&room), vec![(10, 1), (11, 1)]);
    assert!(!room.check_invariants());
}

#[test]
fn participants_without_users_are_left_out() {
    let mut room = open();
    room.apply_room_update(
        message(vec![participant(1, 10, &[5]), participant(2, 20, &[6])], &[]),
        None,
        &mut Context::new(),
    );
    let mut cx = Context::new();
    room.finish_room_update(users(&[1]), users(&[]), vec![], &mut cx);
    assert_eq!(cx.into_effects(), vec![shared(1, 5), Effect::Notify]);
    assert_eq!(peers(&room), vec![(10, 1)]);
    assert!(!room.contains_participant(2));
}

#[test]
fn a_peer_that_is_announced_twice_has_the_last_word() {
    let mut room = open();
    let effects = update(
        &mut room,
        vec![participant(1, 10, &[5]), participant(1, 10, &[6])],
        &[],
    );
    assert_eq!(
        effects,
        vec![shared(1, 5), shared(1, 6), unshared(5), Effect::Notify]
    );
    assert_eq!(room.remote_participants()[&10].projects, vec![project(6)]);
}

#[test]
fn users_who_cannot_be_fetched_change_nobody() {
    let mut room = open();
    update(&mut room, vec![participant(1, 10, &[5])], &[3]);
    room.apply_room_update(
        message(vec![participant(2, 20, &[6])], &[4]),
        None,
        &mut Context::new(),
    );
    let mut cx = Context::new();
    room.finish_room_update(None, None, vec![], &mut cx);
    assert_eq!(cx.into_effects(), vec![Effect::Notify]);
    assert_eq!(peers(&room), vec![(10, 1)]);
    assert_eq!(room.pending_participants(), &[user(3)]);
    // Nobody is counted any more.
    assert!(!room.contains_participant(1));
    assert!(!room.contains_participant(3));
    assert!(!room.check_invariants());
}

#[test]
fn each_list_of_users_may_be_missing() {
    let mut room = open();
    update(&mut room, vec![participant(1, 10, &[])], &[3]);
    room.apply_room_update(
        message(vec![participant(2, 20, &[])], &[4]),
        None,
        &mut Context::new(),
    );
    room.finish_room_update(None, users(&[4]), vec![], &mut Context::new());
    assert_eq!(peers(&room), vec![(10, 1)]);
    assert_eq!(room.pending_participants(), &[user(4)]);
    assert!(room.contains_participant(4));
    room.apply_room_update(
        message(vec![participant(2, 20, &[])], &[5]),
        None,
        &mut Context::new(),
    );
    room.finish_room_update(users(&[2]), None, vec![], &mut Context::new());
    assert_eq!(peers(&room), vec![(20, 2)]);
    assert_eq!(room.pending_participants(), &[user(4)]);
    assert!(!room.contains_participant(4));
}

#[test]
fn a_later_update_supersedes_an_earlier_one() {
    let mut room = open();
    room.apply_room_update(
        message(vec![participant(1, 10, &[5])], &[]),
        None,
        &mut Context::new(),
    );
    let effects = update(&mut room, vec![participant(2, 20, &[6])], &[]);
    assert_eq!(effects, vec![shared(2, 6), Effect::Notify]);
    assert_eq!(peers(&room), vec![(20, 2)]);
}

#[test]
fn an_update_without_the_local_user_clears_its_projects() {
    let mut room = open();
    update(&mut room, vec![participant(100, 1, &[9])], &[]);
    assert_eq!(room.local_participant().projects, vec![project(9)]);
    update(&mut room, vec![], &[]);
    assert!(room.local_participant().projects.is_empty());
}

#[test]
fn a_room_that_empties_is_left() {
    let mut room = open();
    room.first_call(1, None, &mut Context::new()).unwrap();
    update(&mut room, vec![], &[1]);
    assert_eq!(room.call_finished(Ok(()), &mut Context::new()), Ok(()));
    assert!(room.status().is_online());
    update(&mut room, vec![participant(1, 10, &[5])], &[]);
    assert!(room.status().is_online());
    let effects = update(&mut room, vec![], &[]);
    assert!(room.status().is_offline());
    assert_eq!(
        effects,
        vec![
            unshared(5),
            Effect::Notify,
            Effect::Emit(Event::Left),
            Effect::Unsubscribe,
            Effect::DisconnectLiveKit,
            Effect::LeaveRoom { room_id: 1 },
            Effect::Notify,
        ]
    );
    assert!(room.check_invariants());
}

#[test]
fn an_update_does_not_leave_a_room_during_a_call() {
    let mut room = open();
    room.first_call(1, None, &mut Context::new()).unwrap();
    assert_eq!(update(&mut room, vec![], &[]), vec![Effect::Notify]);
    assert!(room.status().is_online());
}

#[test]
fn an_update_under_way_reaches_a_left_room() {
    let mut room = open();
    room.apply_room_update(
        message(vec![participant(1, 10, &[])], &[]),
        None,
        &mut Context::new(),
    );
    room.leave(&mut Context::new()).unwrap();
    assert!(room.has_pending_room_update());
    let mut cx = Context::new();
    room.finish_room_update(users(&[1]), users(&[]), vec![], &mut cx);
    assert!(room.status().is_offline());
    assert_eq!(peers(&room), vec![(10, 1)]);
    assert_eq!(cx.into_effects(), vec![Effect::Notify]);
}

#[test]
fn an_empty_update_leaves_a_left_room_empty() {
    let mut room = open();
    room.first_call(1, None, &mut Context::new()).unwrap();
    room.apply_room_update(message(vec![], &[]), None, &mut Context::new());
    room.leave(&mut Context::new()).unwrap();
    let mut cx = Context::new();
    room.finish_room_update(users(&[]), users(&[]), vec![], &mut cx);
    assert!(peers(&room).is_empty());
    assert_eq!(cx.into_effects(), vec![Effect::Notify]);
}

#[test]
fn tracks_are_looked_up_for_new_participants() {
    let mut room = open();
    update(&mut room, vec![participant(1, 10, &[])], &[]);
    room.apply_room_update(
        message(
            vec![
                participant(1, 10, &[]),
                participant(2, 20, &[]),
                participant(2, 20, &[]),
                participant(3, 30, &[]),
            ],
            &[],
        ),
        None,
        &mut Context::new(),
    );
    assert_eq!(
        room.track_queries(&users(&[1, 2, 2])),
        vec![None, Some("20".to_string()), None]
    );
    assert_eq!(room.track_queries(&None), vec![]);
    let track = |sid: &str, publisher_id: &str| SubscribedTrack {
        sid: sid.to_string(),
        publisher_id: publisher_id.to_string(),
        live_kit_track: "track",
    };
    let mut cx = Context::new();
    room.finish_room_update(
        users(&[1, 2, 2, 3]),
        users(&[]),
        vec![
            // The first participant is not new.
            vec![track("A", "10")],
            // One of these tracks is of somebody who is not there.
            vec![track("B", "20"), track("C", "77"), track("D", "20")],
        ],
        &mut cx,
    );
    assert_eq!(
        cx.into_effects(),
        vec![
            Effect::Notify,
            Effect::LogError(RoomError::SubscribedToUnknownParticipant),
            Effect::Notify,
            Effect::Notify,
        ]
    );
    assert_eq!(room.remote_participants()[&10].tracks.len(), 0);
    assert_eq!(
        room.remote_participants()[&20].tracks.ids(),
        vec!["B".to_string(), "D".to_string()]
    );
    assert_eq!(room.remote_participants()[&30].tracks.len(), 0);
    assert_eq!(room.track_queries(&users(&[1])), vec![]);
}

#[test]
fn tracks_are_not_looked_up_without_media() {
    let mut room: TestRoom = Room::new(1, None, &mut Context::new());
    room.apply_room_update(
        message(vec![participant(1, 10, &[])], &[]),
        None,
        &mut Context::new(),
    );
    assert_eq!(room.track_queries(&users(&[1])), vec![None]);
    let track = SubscribedTrack {
        sid: "A".to_string(),
        publisher_id: "10".to_string(),
        live_kit_track: "track",
    };
    room.finish_room_update(users(&[1]), users(&[]), vec![vec![track]], &mut Context::new());
    assert_eq!(room.remote_participants()[&10].tracks.len(), 0);
}

#[test]
fn a_new_peer_that_is_announced_twice_has_the_first_user() {
    let mut room = open();
    room.apply_room_update(
        message(vec![participant(1, 10, &[5]), participant(2, 10, &[6])], &[]),
        None,
        &mut Context::new(),
    );
    assert_eq!(
        room.track_queries(&users(&[1, 2])),
        vec![Some("10".to_string()), None]
    );
    let track = |sid: &str| SubscribedTrack {
        sid: sid.to_string(),
        publisher_id: "10".to_string(),
        live_kit_track: "track",
    };
    room.finish_room_update(
        users(&[1, 2]),
        users(&[]),
        vec![vec![track("A"), track("B"), track("A")], vec![track("C")]],
        &mut Context::new(),
    );
    assert_eq!(peers(&room), vec![(10, 1)]);
    let entry = &room.remote_participants()[&10];
    assert_eq!(entry.projects, vec![project(6)]);
    let mut ids = entry.tracks.ids();
    ids.sort();
    assert_eq!(ids, vec!["A".to_string(), "B".to_string()]);
    // Those who stay keep their tracks.
    update(&mut room, vec![participant(1, 10, &[])], &[]);
    assert_eq!(room.remote_participants()[&10].tracks.len(), 2);
}

#[test]
fn the_local_user_is_not_fetched_though_others_are_announced_twice() {
    let mut room = open();
    let participants = vec![
        participant(2, 20, &[]),
        participant(1, 10, &[]),
        participant(2, 21, &[]),
    ];
    let fetch = room.apply_room_update(message(participants, &[]), Some(1), &mut Context::new());
    assert_eq!(fetch.remote_user_ids, vec![2, 2]);
}

#[test]
fn a_looked_up_track_without_a_publisher_is_logged() {
    let mut room = open();
    room.apply_room_update(
        message(vec![participant(1, 10, &[])], &[]),
        None,
        &mut Context::new(),
    );
    let track = SubscribedTrack {
        sid: "A".to_string(),
        publisher_id: "ten".to_string(),
        live_kit_track: "track",
    };
    let mut cx = Context::new();
    room.finish_room_update(users(&[1]), users(&[]), vec![vec![track]], &mut cx);
    assert_eq!(
        cx.into_effects(),
        vec![
            Effect::LogError(RoomError::InvalidPublisherId(PeerIdError::InvalidDigit)),
            Effect::Notify,
        ]
    );
    assert_eq!(room.remote_participants()[&10].tracks.len(), 0);
}

use call::{
    proto, Context, Effect, Event, PeerIdError, RemoteVideoTrack, RemoteVideoTrackUpdate, Room,
    RoomError, Sid, SubscribedTrack, TrackMap, User,
};

type TestRoom = Room<u8, &'static str, u32>;

/// A room in which peer 10 is.
fn room_with_peer() -> TestRoom {
    let mut room = Room::new(1, None, &mut Context::new());
    let participant = proto::Participant {
        user_id: 1,
        peer_id: 10,
        projects: vec![],
        location: None,
    };
    let message = proto::Room {
        id: 1,
        participants: vec![participant],
        pending_participant_user_ids: vec![],
    };
    room.apply_room_update(message, None, &mut Context::new());
    let user = User {
        id: 1,
        github_login: "alice".to_string(),
    };
    room.finish_room_update(Some(vec![user]), Some(vec![]), vec![], &mut Context::new());
    room
}

fn sid(id: &str) -> Sid {
    id.to_string()
}

fn subscribed(id: &str, publisher_id: &str, track: &'static str) -> RemoteVideoTrackUpdate<&'static str> {
    RemoteVideoTrackUpdate::Subscribed(SubscribedTrack {
        sid: sid(id),
        publisher_id: publisher_id.to_string(),
        live_kit_track: track,
    })
}

fn unsubscribed(id: &str, publisher_id: &str) -> RemoteVideoTrackUpdate<&'static str> {
    RemoteVideoTrackUpdate::Unsubscribed {
        publisher_id: publisher_id.to_string(),
        track_id: sid(id),
    }
}

#[test]
fn a_track_comes_and_goes() {
    let mut room = room_with_peer();
    let mut cx = Context::new();
    assert_eq!(
        room.remote_video_track_updated(subscribed("A", "10", "first"), &mut cx),
        Ok(())
    );
    assert_eq!(
        room.remote_participants()[&10].tracks.get(&sid("A")),
        Some(&RemoteVideoTrack {
            frame: None,
            live_kit_track: "first",
        })
    );
    assert_eq!(
        room.remote_video_track_updated(unsubscribed("A", "10"), &mut cx),
        Ok(())
    );
    assert_eq!(room.remote_participants()[&10].tracks.get(&sid("A")), None);
    // A track that is not there may be unsubscribed from, too.
    assert_eq!(
        room.remote_video_track_updated(unsubscribed("A", "10"), &mut cx),
        Ok(())
    );
    assert_eq!(
        cx.into_effects(),
        vec![Effect::Notify, Effect::Notify, Effect::Notify]
    );
}

#[test]
fn a_track_takes_the_place_of_an_earlier_one() {
    let mut room = room_with_peer();
    let mut cx = Context::new();
    room.remote_video_track_updated(subscribed("A", "10", "first"), &mut cx)
        .unwrap();
    assert!(!room.frame_received(10, &sid("A"), 1, &mut cx));
    room.remote_video_track_updated(subscribed("A", "10", "second"), &mut cx)
        .unwrap();
    assert_eq!(room.remote_participants()[&10].tracks.len(), 1);
    assert_eq!(
        room.remote_participants()[&10].tracks.get(&sid("A")),
        Some(&RemoteVideoTrack {
            frame: None,
            live_kit_track: "second",
        })
    );
}

#[test]
fn a_track_of_a_stranger_is_refused() {
    let mut room = room_with_peer();
    let mut cx = Context::new();
    assert_eq!(
        room.remote_video_track_updated(subscribed("A", "11", "track"), &mut cx),
        Err(RoomError::SubscribedToUnknownParticipant)
    );
    assert_eq!(
        room.remote_video_track_updated(unsubscribed("A", "11"), &mut cx),
        Err(RoomError::UnsubscribedFromUnknownParticipant)
    );
    assert_eq!(cx.into_effects(), vec![]);
}

#[test]
fn a_track_of_nobody_is_refused() {
    let mut room = room_with_peer();
    let mut cx = Context::new();
    assert_eq!(
        room.remote_video_track_updated(subscribed("A", "ten", "track"), &mut cx),
        Err(RoomError::InvalidPublisherId(PeerIdError::InvalidDigit))
    );
    assert_eq!(
        room.remote_video_track_updated(subscribed("A", "", "track"), &mut cx),
        Err(RoomError::InvalidPublisherId(PeerIdError::Empty))
    );
    assert_eq!(
        room.remote_video_track_updated(unsubscribed("A", "10000000000"), &mut cx),
        Err(RoomError::InvalidPublisherId(PeerIdError::TooLarge))
    );
    assert_eq!(cx.into_effects(), vec![]);
}

#[test]
fn a_track_shows_the_last_picture() {
    let mut room = room_with_peer();
    room.remote_video_track_updated(subscribed("A", "10", "track"), &mut Context::new())
        .unwrap();
    room.remote_video_track_updated(subscribed("B", "+010", "other"), &mut Context::new())
        .unwrap();
    let mut cx = Context::new();
    assert!(!room.frame_received(10, &sid("A"), 1, &mut cx));
    assert!(!room.frame_received(10, &sid("A"), 2, &mut cx));
    let tracks = &room.remote_participants()[&10].tracks;
    assert_eq!(
        tracks.get(&sid("A")),
        Some(&RemoteVideoTrack {
            frame: Some(2),
            live_kit_track: "track",
        })
    );
    assert_eq!(
        tracks.get(&sid("B")),
        Some(&RemoteVideoTrack {
            frame: None,
            live_kit_track: "other",
        })
    );
    let frame = || {
        Effect::Emit(Event::Frame {
            participant_id: 10,
            track_id: sid("A"),
        })
    };
    assert_eq!(cx.into_effects(), vec![frame(), frame()]);
}

#[test]
fn no_pictures_are_asked_for_when_the_track_is_gone() {
    let mut room = room_with_peer();
    let mut cx = Context::new();
    assert!(room.frame_received(10, &sid("A"), 1, &mut cx));
    assert!(room.frame_received(11, &sid("A"), 1, &mut cx));
    room.remote_video_track_updated(subscribed("A", "10", "track"), &mut Context::new())
        .unwrap();
    room.remote_video_track_updated(unsubscribed("A", "10"), &mut Context::new())
        .unwrap();
    assert!(room.frame_received(10, &sid("A"), 1, &mut cx));
    room.leave(&mut Context::new()).unwrap();
    assert!(room.frame_received(10, &sid("A"), 1, &mut cx));
    assert_eq!(cx.into_effects(), vec![]);
}

#[test]
fn a_map_of_tracks_holds_each_id_once() {
    let mut tracks: TrackMap<u8> = TrackMap::new();
    assert_eq!(tracks.len(), 0);
    assert_eq!(tracks.get(&sid("A")), None);
    tracks.insert(sid("A"), 1);
    tracks.insert(sid("B"), 2);
    tracks.insert(sid("A"), 3);
    assert_eq!(tracks.len(), 2);
    assert_eq!(tracks.get(&sid("A")), Some(&3));
    assert_eq!(tracks.get(&sid("B")), Some(&2));
    let mut ids = tracks.ids();
    ids.sort();
    assert_eq!(ids, vec![sid("A"), sid("B")]);
    assert_eq!(tracks.remove(&sid("A")), Some(3));
    assert_eq!(tracks.remove(&sid("A")), None);
    assert_eq!(tracks.len(), 1);
    assert_eq!(tracks.ids(), vec![sid("B")]);
}

#[test]
fn events_can_be_passed_on() {
    let events = vec![
        Event::Frame {
            participant_id: 1,
            track_id: sid("A"),
        },
        Event::RemoteProjectShared {
            owner: User {
                id: 1,
                github_login: "alice".to_string(),
            },
            project_id: 2,
            worktree_root_names: vec!["zed".to_string(), "src".to_string()],
        },
        Event::RemoteProjectUnshared { project_id: 2 },
        Event::Left,
    ];
    for event in &events {
        assert_eq!(event.clone(), *event);
    }
}

#[test]
fn tracks_and_pictures_do_not_change_who_is_counted() {
    let mut room = room_with_peer();
    let mut cx = Context::new();
    assert!(room.check_invariants());
    room.remote_video_track_updated(subscribed("A", "10", "track"), &mut cx)
        .unwrap();
    room.frame_received(10, &sid("A"), 1, &mut cx);
    room.remote_video_track_updated(unsubscribed("A", "10"), &mut cx)
        .unwrap();
    assert!(room.contains_participant(1));
    assert_eq!(room.remote_participants()[&10].user.github_login, "alice");
    assert!(room.check_invariants());
}

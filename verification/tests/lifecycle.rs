use call::proto::{
    Call, CreateRoomResponse, JoinRoom, JoinRoomResponse, LiveKitConnectionInfo,
};
use call::{
    proto, result_after_sending, Context, Effect, Event, IncomingCall, Room, RoomError, RoomStatus,
    UserFetch,
};

type TestRoom = Room<u8, &'static str, u32>;

fn live_kit() -> Option<LiveKitConnectionInfo> {
    Some(LiveKitConnectionInfo {
        server_url: "wss://media".to_string(),
        token: "secret".to_string(),
    })
}

fn room_message(id: u64) -> proto::Room {
    proto::Room {
        id,
        participants: vec![],
        pending_participant_user_ids: vec![],
    }
}

fn participant(user_id: u64, peer_id: u32) -> proto::Participant {
    proto::Participant {
        user_id,
        peer_id,
        projects: vec![],
        location: None,
    }
}

fn open(id: u64) -> TestRoom {
    Room::new(id, live_kit(), &mut Context::new())
}

#[test]
fn a_new_room_is_online_and_empty() {
    let mut cx = Context::new();
    let room: TestRoom = Room::new(3, live_kit(), &mut cx);
    assert_eq!(room.id(), 3);
    assert!(room.status() == RoomStatus::Online);
    assert!(room.status().is_online());
    assert!(!room.status().is_offline());
    assert!(room.has_live_kit());
    assert!(room.is_subscribed());
    assert!(room.local_participant().projects.is_empty());
    assert_eq!(room.local_participant().active_project, None);
    assert!(room.remote_participants().is_empty());
    assert!(room.pending_participants().is_empty());
    assert!(!room.contains_participant(0));
    assert_eq!(room.pending_call_count(), 0);
    assert!(!room.has_pending_room_update());
    assert!(!room.should_leave());
    assert!(room.check_invariants());
    assert_eq!(
        cx.into_effects(),
        vec![
            Effect::WatchConnection,
            Effect::ConnectLiveKit {
                server_url: "wss://media".to_string(),
                token: "secret".to_string(),
            },
            Effect::Subscribe,
        ]
    );
}

#[test]
fn a_room_without_connection_info_has_no_media() {
    let mut cx = Context::new();
    let room: TestRoom = Room::new(3, None, &mut cx);
    assert!(!room.has_live_kit());
    assert_eq!(room.next_publish_id(), None);
    assert_eq!(
        cx.into_effects(),
        vec![Effect::WatchConnection, Effect::Subscribe]
    );
}

#[test]
fn leaving_empties_the_room_and_is_told() {
    let mut room = open(8);
    let mut cx = Context::new();
    assert_eq!(room.leave(&mut cx), Ok(()));
    assert!(room.status().is_offline());
    assert!(!room.has_live_kit());
    assert!(!room.is_subscribed());
    assert!(room.check_invariants());
    assert_eq!(
        cx.into_effects(),
        vec![
            Effect::Notify,
            Effect::Emit(Event::Left),
            Effect::Unsubscribe,
            Effect::DisconnectLiveKit,
            Effect::LeaveRoom { room_id: 8 },
        ]
    );
}

#[test]
fn leaving_without_media_disconnects_nothing() {
    let mut room: TestRoom = Room::new(8, None, &mut Context::new());
    let mut cx = Context::new();
    assert_eq!(room.leave(&mut cx), Ok(()));
    assert_eq!(
        cx.into_effects(),
        vec![
            Effect::Notify,
            Effect::Emit(Event::Left),
            Effect::Unsubscribe,
            Effect::LeaveRoom { room_id: 8 },
        ]
    );
}

#[test]
fn a_left_room_refuses() {
    let mut room = open(8);
    room.leave(&mut Context::new()).unwrap();
    let mut cx = Context::new();
    assert_eq!(room.leave(&mut cx), Err(RoomError::Offline));
    assert_eq!(room.call(1, None, &mut cx), Err(RoomError::Offline));
    assert_eq!(room.set_location(None, &mut cx), Err(RoomError::Offline));
    assert_eq!(room.share_screen(&mut cx), Err(RoomError::Offline));
    assert_eq!(room.unshare_screen(&mut cx), Err(RoomError::Offline));
    assert_eq!(
        room.screen_published(0, Ok(1), &mut cx),
        Err(RoomError::LiveKitNotInitialized)
    );
    assert_eq!(room.pending_call_count(), 0);
    assert_eq!(cx.into_effects(), vec![]);
}

#[test]
fn a_room_is_created_as_the_server_says() {
    let mut cx = Context::new();
    let room = TestRoom::create(
        Ok(CreateRoomResponse {
            room: Some(room_message(21)),
            live_kit_connection_info: None,
        }),
        &mut cx,
    )
    .unwrap();
    assert_eq!(room.id(), 21);
    assert!(!room.has_live_kit());
    assert_eq!(
        cx.into_effects(),
        vec![Effect::WatchConnection, Effect::Subscribe]
    );
}

#[test]
fn a_room_is_not_created_without_the_server() {
    let mut cx = Context::new();
    let missing = TestRoom::create(
        Ok(CreateRoomResponse {
            room: None,
            live_kit_connection_info: live_kit(),
        }),
        &mut cx,
    );
    assert_eq!(missing.unwrap_err(), RoomError::InvalidRoom);
    let failed = TestRoom::create(Err(RoomError::Service("no route".to_string())), &mut cx);
    assert_eq!(
        failed.unwrap_err(),
        RoomError::Service("no route".to_string())
    );
    assert_eq!(cx.into_effects(), vec![]);
}

#[test]
fn the_first_call_is_about_the_shared_project() {
    let mut room = open(4);
    let mut cx = Context::new();
    assert_eq!(
        room.first_call(70, Some(Ok(9)), &mut cx),
        Ok(Call {
            room_id: 4,
            recipient_user_id: 70,
            initial_project_id: Some(9),
        })
    );
    assert_eq!(room.pending_call_count(), 1);
    assert!(!room.should_leave());
    assert_eq!(cx.into_effects(), vec![Effect::Notify]);
}

#[test]
fn the_first_call_is_not_made_when_sharing_fails() {
    let mut room = open(4);
    let mut cx = Context::new();
    let error = RoomError::Service("too large".to_string());
    assert_eq!(
        room.first_call(70, Some(Err(error)), &mut cx),
        Err(RoomError::Service("too large".to_string()))
    );
    assert_eq!(room.pending_call_count(), 0);
    assert!(!room.should_leave());
    assert_eq!(cx.into_effects(), vec![]);
}

#[test]
fn the_first_call_out_of_a_left_room_fails() {
    let mut room = open(4);
    room.leave(&mut Context::new()).unwrap();
    let error = room.first_call(70, None, &mut Context::new()).unwrap_err();
    assert_eq!(error, RoomError::CreationFailed(Box::new(RoomError::Offline)));
    assert_eq!(error.message(), "room creation failed: room is offline");
}

#[test]
fn a_new_room_is_left_when_nobody_comes() {
    let mut room = open(4);
    room.first_call(70, None, &mut Context::new()).unwrap();
    let mut cx = Context::new();
    let answer = room.call_finished(Err(RoomError::Service("declined".to_string())), &mut cx);
    assert_eq!(answer, Err(RoomError::Service("declined".to_string())));
    assert!(room.status().is_offline());
    assert_eq!(
        cx.into_effects().last(),
        Some(&Effect::LeaveRoom { room_id: 4 })
    );
    assert_eq!(
        TestRoom::creation_result(answer),
        Err(RoomError::CreationFailed(Box::new(RoomError::Service(
            "declined".to_string()
        ))))
    );
    assert_eq!(TestRoom::creation_result(Ok(())), Ok(()));
}

#[test]
fn an_answered_call_leaves_no_trace() {
    let mut room = open(4);
    let mut cx = Context::new();
    assert_eq!(
        room.call(5, None, &mut cx),
        Ok(Call {
            room_id: 4,
            recipient_user_id: 5,
            initial_project_id: None,
        })
    );
    assert_eq!(room.pending_call_count(), 1);
    assert_eq!(room.call_finished(Ok(()), &mut cx), Ok(()));
    assert_eq!(room.pending_call_count(), 0);
    assert!(room.status().is_online());
    assert_eq!(cx.into_effects(), vec![Effect::Notify]);
}

#[test]
fn a_room_is_kept_while_a_call_is_under_way() {
    let mut room = open(4);
    let mut cx = Context::new();
    room.first_call(5, None, &mut cx).unwrap();
    room.call(6, None, &mut cx).unwrap();
    assert_eq!(room.call_finished(Ok(()), &mut cx), Ok(()));
    assert!(room.status().is_online());
    assert_eq!(room.call_finished(Ok(()), &mut cx), Ok(()));
    assert!(room.status().is_offline());
}

#[test]
fn an_answer_to_an_empty_left_room_is_refused() {
    let mut room = open(4);
    room.first_call(5, None, &mut Context::new()).unwrap();
    room.leave(&mut Context::new()).unwrap();
    let mut cx = Context::new();
    assert_eq!(
        room.call_finished(Ok(()), &mut cx),
        Err(RoomError::Offline)
    );
    assert_eq!(room.pending_call_count(), 0);
    assert_eq!(cx.into_effects(), vec![]);
}

#[test]
fn joining_announces_who_is_there() {
    let call = IncomingCall { room_id: 12 };
    assert_eq!(call.join_request(), JoinRoom { id: 12 });
    let mut cx = Context::new();
    let (room, fetch) = TestRoom::join(
        &call,
        Ok(JoinRoomResponse {
            room: Some(proto::Room {
                id: 99,
                participants: vec![participant(1, 10), participant(2, 20), participant(3, 30)],
                pending_participant_user_ids: vec![4],
            }),
            live_kit_connection_info: None,
        }),
        Some(1),
        &mut cx,
    )
    .unwrap();
    // The id is the one of the call.
    assert_eq!(room.id(), 12);
    assert!(room.has_pending_room_update());
    assert!(!room.should_leave());
    assert_eq!(
        fetch,
        UserFetch {
            remote_user_ids: vec![3, 2],
            pending_user_ids: vec![4],
        }
    );
    assert_eq!(
        cx.into_effects(),
        vec![Effect::WatchConnection, Effect::Subscribe, Effect::Notify]
    );
}

#[test]
fn joining_fails_with_the_server() {
    let call = IncomingCall { room_id: 12 };
    let mut cx = Context::new();
    let missing = TestRoom::join(
        &call,
        Ok(JoinRoomResponse {
            room: None,
            live_kit_connection_info: None,
        }),
        Some(1),
        &mut cx,
    );
    assert_eq!(missing.unwrap_err(), RoomError::InvalidRoom);
    let failed = TestRoom::join(
        &call,
        Err(RoomError::Service("full".to_string())),
        Some(1),
        &mut cx,
    );
    assert_eq!(failed.unwrap_err(), RoomError::Service("full".to_string()));
    assert_eq!(cx.into_effects(), vec![]);
}

#[test]
fn a_joined_room_is_left_when_nobody_is_there() {
    let (mut room, fetch) = TestRoom::join(
        &IncomingCall { room_id: 12 },
        Ok(JoinRoomResponse {
            room: Some(room_message(12)),
            live_kit_connection_info: None,
        }),
        None,
        &mut Context::new(),
    )
    .unwrap();
    assert_eq!(
        fetch,
        UserFetch {
            remote_user_ids: vec![],
            pending_user_ids: vec![],
        }
    );
    let mut cx = Context::new();
    room.finish_room_update(Some(vec![]), Some(vec![]), vec![], &mut cx);
    assert!(room.status().is_offline());
    assert_eq!(
        cx.into_effects(),
        vec![
            Effect::Notify,
            Effect::Emit(Event::Left),
            Effect::Unsubscribe,
            Effect::LeaveRoom { room_id: 12 },
            Effect::Notify,
        ]
    );
}

#[test]
fn a_dropped_room_is_left() {
    let mut room = open(5);
    let mut cx = Context::new();
    room.release(&mut cx);
    assert_eq!(cx.into_effects(), vec![Effect::LeaveRoom { room_id: 5 }]);
    room.leave(&mut Context::new()).unwrap();
    let mut cx = Context::new();
    room.release(&mut cx);
    assert_eq!(cx.into_effects(), vec![]);
}

#[test]
fn a_message_that_is_not_sent_decides() {
    let unsent = || RoomError::Service("closed".to_string());
    assert_eq!(result_after_sending(Ok(()), Ok(())), Ok(()));
    assert_eq!(
        result_after_sending(Ok(()), Err(RoomError::Offline)),
        Err(RoomError::Offline)
    );
    assert_eq!(result_after_sending(Err(unsent()), Ok(())), Err(unsent()));
    assert_eq!(
        result_after_sending(Err(unsent()), Err(RoomError::Offline)),
        Err(unsent())
    );
}

#[test]
fn a_left_room_never_comes_back() {
    let mut room = open(8);
    room.first_call(70, None, &mut Context::new()).unwrap();
    room.leave(&mut Context::new()).unwrap();
    let mut cx = Context::new();
    let message = proto::Room {
        id: 9,
        participants: vec![participant(1, 10)],
        pending_participant_user_ids: vec![],
    };
    room.apply_room_update(message, None, &mut cx);
    room.finish_room_update(None, None, vec![], &mut cx);
    let _ = room.call_finished(Ok(()), &mut cx);
    assert_eq!(room.id(), 8);
    assert!(room.status().is_offline());
    assert!(!room.is_subscribed());
    assert!(!room.has_live_kit());
    assert!(room.check_invariants());
    // The observers are told of changes, but not that the room has been left again.
    assert_eq!(cx.into_effects(), vec![Effect::Notify, Effect::Notify]);
}

#[test]
fn a_life_is_left_once() {
    let leave_count = |leaves: usize| {
        let mut cx = Context::new();
        let mut room: TestRoom = Room::new(8, live_kit(), &mut cx);
        for _ in 0..leaves {
            let _ = room.leave(&mut cx);
        }
        room.release(&mut cx);
        let effects = cx.into_effects();
        let left = effects.iter().filter(|e| **e == Effect::Emit(Event::Left));
        let sent = effects.iter().filter(|e| matches!(e, Effect::LeaveRoom { .. }));
        (left.count(), sent.count())
    };
    assert_eq!(leave_count(0), (0, 1));
    assert_eq!(leave_count(1), (1, 1));
    assert_eq!(leave_count(3), (1, 1));
}

#[test]
fn only_calls_are_counted() {
    let mut room = open(4);
    let mut cx = Context::new();
    room.call(5, None, &mut cx).unwrap();
    room.apply_room_update(room_message(4), None, &mut cx);
    room.finish_room_update(Some(vec![]), Some(vec![]), vec![], &mut cx);
    room.share_screen(&mut cx).unwrap();
    room.set_location(None, &mut cx).unwrap();
    assert_eq!(room.pending_call_count(), 1);
    room.call(6, None, &mut cx).unwrap();
    assert_eq!(room.pending_call_count(), 2);
    room.leave(&mut cx).unwrap();
    assert_eq!(room.call(7, None, &mut cx), Err(RoomError::Offline));
    assert_eq!(room.pending_call_count(), 2);
    let _ = room.call_finished(Ok(()), &mut cx);
    assert_eq!(room.pending_call_count(), 1);
}

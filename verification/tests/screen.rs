use call::proto::LiveKitConnectionInfo;
use call::{Context, Effect, Room, RoomError, ScreenTrack};

type TestRoom = Room<u8, &'static str, u32>;

fn open() -> TestRoom {
    let info = LiveKitConnectionInfo {
        server_url: String::new(),
        token: String::new(),
    };
    Room::new(1, Some(info), &mut Context::new())
}

#[test]
fn nothing_is_shared_at_first() {
    assert!(matches!(
        ScreenTrack::<u32>::default(),
        ScreenTrack::NotShared
    ));
    let room = open();
    assert!(!room.is_screen_sharing());
    assert_eq!(room.next_publish_id(), Some(0));
}

#[test]
fn a_screen_is_shared_once() {
    let mut room = open();
    let mut cx = Context::new();
    assert_eq!(room.share_screen(&mut cx), Ok(0));
    assert!(room.is_screen_sharing());
    assert_eq!(
        room.share_screen(&mut cx),
        Err(RoomError::ScreenAlreadyShared)
    );
    assert_eq!(room.screen_published(0, Ok(77), &mut cx), Ok(()));
    assert!(room.is_screen_sharing());
    assert_eq!(
        room.share_screen(&mut cx),
        Err(RoomError::ScreenAlreadyShared)
    );
    assert_eq!(cx.into_effects(), vec![Effect::Notify, Effect::Notify]);
}

#[test]
fn unsharing_takes_the_track_back() {
    let mut room = open();
    let mut cx = Context::new();
    room.share_screen(&mut Context::new()).unwrap();
    room.screen_published(0, Ok(77), &mut Context::new()).unwrap();
    assert_eq!(room.unshare_screen(&mut cx), Ok(()));
    assert!(!room.is_screen_sharing());
    assert_eq!(
        cx.into_effects(),
        vec![Effect::UnpublishTrack(77), Effect::Notify]
    );
}

#[test]
fn unsharing_what_is_not_shared_is_refused() {
    let mut room = open();
    let mut cx = Context::new();
    assert_eq!(
        room.unshare_screen(&mut cx),
        Err(RoomError::ScreenNotShared)
    );
    assert_eq!(cx.into_effects(), vec![]);
}

#[test]
fn unsharing_undoes_sharing_but_for_the_id() {
    let mut room = open();
    let mut cx = Context::new();
    assert_eq!(room.share_screen(&mut cx), Ok(0));
    assert_eq!(room.unshare_screen(&mut cx), Ok(()));
    assert!(!room.is_screen_sharing());
    assert_eq!(room.next_publish_id(), Some(1));
    assert_eq!(room.share_screen(&mut cx), Ok(1));
    assert_eq!(
        cx.into_effects(),
        vec![Effect::Notify, Effect::Notify, Effect::Notify]
    );
}

#[test]
fn a_late_publication_is_taken_back() {
    let mut room = open();
    room.share_screen(&mut Context::new()).unwrap();
    room.unshare_screen(&mut Context::new()).unwrap();
    let mut cx = Context::new();
    assert_eq!(room.screen_published(0, Ok(5), &mut cx), Ok(()));
    assert!(!room.is_screen_sharing());
    assert_eq!(cx.into_effects(), vec![Effect::UnpublishTrack(5)]);
    // Also when the next one is waited for.
    room.share_screen(&mut Context::new()).unwrap();
    let mut cx = Context::new();
    assert_eq!(room.screen_published(0, Ok(6), &mut cx), Ok(()));
    assert_eq!(
        room.screen_published(0, Err(RoomError::NoDisplayFound), &mut cx),
        Ok(())
    );
    assert!(room.is_screen_sharing());
    assert_eq!(cx.into_effects(), vec![Effect::UnpublishTrack(6)]);
    let mut cx = Context::new();
    assert_eq!(room.screen_published(1, Ok(7), &mut cx), Ok(()));
    assert_eq!(cx.into_effects(), vec![Effect::Notify]);
}

#[test]
fn a_failed_publication_ends_sharing() {
    let mut room = open();
    let mut cx = Context::new();
    room.share_screen(&mut cx).unwrap();
    assert_eq!(
        room.screen_published(0, Err(RoomError::NoDisplayFound), &mut cx),
        Err(RoomError::NoDisplayFound)
    );
    assert!(!room.is_screen_sharing());
    assert_eq!(cx.into_effects(), vec![Effect::Notify, Effect::Notify]);
}

#[test]
fn a_screen_is_not_shared_without_media() {
    let mut room: TestRoom = Room::new(1, None, &mut Context::new());
    let mut cx = Context::new();
    assert!(!room.is_screen_sharing());
    assert_eq!(
        room.share_screen(&mut cx),
        Err(RoomError::LiveKitNotInitialized)
    );
    assert_eq!(
        room.unshare_screen(&mut cx),
        Err(RoomError::LiveKitNotInitialized)
    );
    assert_eq!(
        room.screen_published(0, Ok(1), &mut cx),
        Err(RoomError::LiveKitNotInitialized)
    );
    assert_eq!(
        room.screen_to_publish(Ok(vec!["main"])),
        Err(RoomError::LiveKitNotInitialized)
    );
    assert_eq!(cx.into_effects(), vec![]);
}

#[test]
fn the_first_display_is_published() {
    let room = open();
    assert_eq!(room.screen_to_publish(Ok(vec!["main", "side"])), Ok("main"));
    assert_eq!(
        room.screen_to_publish(Ok(Vec::<u8>::new())),
        Err(RoomError::NoDisplayFound)
    );
    assert_eq!(
        room.screen_to_publish::<u8>(Err(RoomError::Service("denied".to_string()))),
        Err(RoomError::Service("denied".to_string()))
    );
}

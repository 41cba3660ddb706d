use call::proto::{
    LocationVariant, ParticipantLocation, ShareProject, ShareProjectResponse,
    UpdateParticipantLocation, WorktreeMetadata,
};
use call::{Context, Effect, Project, ProjectHandle, Room, RoomError, ShareProjectStep, Worktree};

type TestRoom = Room<u8, &'static str, u32>;

fn open() -> TestRoom {
    Room::new(6, None, &mut Context::new())
}

fn project(handle: usize, remote_id: Option<u64>) -> Project {
    Project {
        handle: ProjectHandle(handle),
        remote_id,
        worktrees: vec![
            Worktree {
                id: 1,
                root_name: "zed".to_string(),
                is_visible: true,
                abs_path: b"/code/zed".to_vec(),
            },
            Worktree {
                id: 2,
                root_name: "notes".to_string(),
                is_visible: false,
                abs_path: vec![b'/', 0xff],
            },
        ],
    }
}

fn location(variant: LocationVariant) -> UpdateParticipantLocation {
    UpdateParticipantLocation {
        room_id: 6,
        location: Some(ParticipantLocation {
            variant: Some(variant),
        }),
    }
}

#[test]
fn a_shared_project_is_not_shared_again() {
    assert_eq!(
        open().share_project(&project(0, Some(31))),
        ShareProjectStep::AlreadyShared { project_id: 31 }
    );
}

#[test]
fn the_server_is_told_of_the_folders() {
    assert_eq!(
        open().share_project(&project(0, None)),
        ShareProjectStep::Request(ShareProject {
            room_id: 6,
            worktrees: vec![
                WorktreeMetadata {
                    id: 1,
                    root_name: "zed".to_string(),
                    visible: true,
                    abs_path: b"/code/zed".to_vec(),
                },
                WorktreeMetadata {
                    id: 2,
                    root_name: "notes".to_string(),
                    visible: false,
                    abs_path: vec![b'/', 0xff],
                },
            ],
        })
    );
}

#[test]
fn the_location_follows_the_project() {
    let mut room = open();
    let mut cx = Context::new();
    assert_eq!(
        room.set_location(Some(&project(3, Some(31))), &mut cx),
        Ok(location(LocationVariant::SharedProject { id: 31 }))
    );
    assert_eq!(
        room.local_participant().active_project,
        Some(ProjectHandle(3))
    );
    assert_eq!(
        room.set_location(Some(&project(4, None)), &mut cx),
        Ok(location(LocationVariant::UnsharedProject))
    );
    assert_eq!(
        room.local_participant().active_project,
        Some(ProjectHandle(4))
    );
    assert_eq!(
        room.set_location(None, &mut cx),
        Ok(location(LocationVariant::External))
    );
    assert_eq!(room.local_participant().active_project, None);
    assert_eq!(
        cx.into_effects(),
        vec![Effect::Notify, Effect::Notify, Effect::Notify]
    );
}

#[test]
fn sharing_the_active_project_moves_the_location() {
    let mut room = open();
    room.set_location(Some(&project(3, None)), &mut Context::new())
        .unwrap();
    let mut cx = Context::new();
    assert_eq!(
        room.project_shared(&project(3, Some(44)), &mut cx),
        Ok(Some(location(LocationVariant::SharedProject { id: 44 })))
    );
    assert_eq!(cx.into_effects(), vec![Effect::Notify]);
}

#[test]
fn sharing_another_project_moves_nothing() {
    let mut room = open();
    let mut cx = Context::new();
    assert_eq!(room.project_shared(&project(3, Some(44)), &mut cx), Ok(None));
    room.set_location(Some(&project(5, None)), &mut Context::new())
        .unwrap();
    assert_eq!(room.project_shared(&project(3, Some(44)), &mut cx), Ok(None));
    assert_eq!(
        room.local_participant().active_project,
        Some(ProjectHandle(5))
    );
    assert_eq!(cx.into_effects(), vec![]);
}

#[test]
fn a_left_room_is_not_told_of_the_location() {
    let mut room = open();
    room.set_location(Some(&project(3, None)), &mut Context::new())
        .unwrap();
    room.leave(&mut Context::new()).unwrap();
    let mut cx = Context::new();
    assert_eq!(
        room.project_shared(&project(3, Some(44)), &mut cx),
        Err(RoomError::Offline)
    );
    assert_eq!(room.project_shared(&project(4, Some(45)), &mut cx), Ok(None));
    assert_eq!(cx.into_effects(), vec![]);
}

#[test]
fn sharing_ends_with_the_id_unless_something_failed() {
    let failure = |text: &str| RoomError::Service(text.to_string());
    let response = || Ok(ShareProjectResponse { project_id: 31 });
    assert_eq!(TestRoom::sharing_result(response(), Ok(())), Ok(31));
    assert_eq!(
        TestRoom::sharing_result(response(), Err(RoomError::Offline)),
        Err(RoomError::Offline)
    );
    assert_eq!(
        TestRoom::sharing_result(Err(failure("too large")), Ok(())),
        Err(failure("too large"))
    );
    assert_eq!(
        TestRoom::sharing_result(Err(failure("too large")), Err(RoomError::Offline)),
        Err(failure("too large"))
    );
}

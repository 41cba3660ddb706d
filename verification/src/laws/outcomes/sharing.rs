//! Sharing the screen and the projects of the local participant.

use crate::error::RoomError;
use crate::event::{Context, EffectView};
use crate::media::ScreenTrack;
use crate::model::RoomView;
use crate::project::Project;
use crate::proto;
use crate::room::{Room, ShareProjectStep};
use vstd::prelude::*;

verus! {

/// The screen can be shared in every room that the participant is in, that has a media
/// connection and in which the participant does not share it, whoever else is there. The
/// publication gets the next id and is waited for, the id is used up, and nothing else
/// changes.
///
/// It is refused if the room has been left, if the screen is shared or about to be, or
/// if there is no media connection. Nothing happens then.
pub proof fn law_screen_can_be_shared<F, T, P>(
    room: &mut Room<F, T, P>,
    cx: &mut Context<P>,
    result: Result<usize, RoomError>,
)
    requires
        call_ensures(Room::<F, T, P>::share_screen, (room, cx), result),
        old(room)@.status is Online && old(room)@.live_kit is Some
            && old(room)@.live_kit->0.screen_track is NotShared
            ==> old(room)@.live_kit->0.next_publish_id < usize::MAX,
    ensures
        ({
            let before = old(room)@;
            let after = final(room)@;
            let live_kit = before.live_kit->0;
            &&& before.status is Online && before.live_kit is Some
                && live_kit.screen_track is NotShared ==> {
                &&& result == Ok::<usize, RoomError>(live_kit.next_publish_id)
                &&& after.live_kit is Some
                &&& after.live_kit->0.screen_track == (ScreenTrack::<P>::Pending {
                    publish_id: live_kit.next_publish_id,
                })
                &&& after.live_kit->0.next_publish_id == live_kit.next_publish_id + 1
                &&& after == (RoomView { live_kit: after.live_kit, ..before })
                &&& final(cx)@ == old(cx)@.push(EffectView::Notify)
            }
            &&& before.status is Offline ==> result == Err::<usize, RoomError>(RoomError::Offline)
            &&& before.status is Online && before.live_kit is None ==> result == Err::<
                usize,
                RoomError,
            >(RoomError::LiveKitNotInitialized)
            &&& before.status is Online && before.live_kit is Some && !(
            live_kit.screen_track is NotShared) ==> result == Err::<usize, RoomError>(
                RoomError::ScreenAlreadyShared,
            )
            &&& result is Err ==> after == before && final(cx)@ == old(cx)@
        }),
{
    if result is Err {
        assert(final(cx)@ =~= old(cx)@);
    } else {
        assert(final(cx)@ =~= old(cx)@.push(EffectView::Notify));
    }
}

/// The display that is published is the first one that was found. There is none if they
/// could not be found, if there are none, or if there is no media connection.
pub proof fn law_first_display_is_published<F, T, P, D>(
    room: &Room<F, T, P>,
    displays: Result<Vec<D>, RoomError>,
    result: Result<D, RoomError>,
)
    requires
        call_ensures(Room::<F, T, P>::screen_to_publish::<D>, (room, displays), result),
    ensures
        displays matches Err(error) ==> result == Err::<D, RoomError>(error),
        displays is Ok && displays->Ok_0@.len() == 0 ==> result == Err::<D, RoomError>(
            RoomError::NoDisplayFound,
        ),
        displays is Ok && displays->Ok_0@.len() > 0 && room@.live_kit is None ==> result == Err::<
            D,
            RoomError,
        >(RoomError::LiveKitNotInitialized),
        displays is Ok && displays->Ok_0@.len() > 0 && room@.live_kit is Some ==> result == Ok::<
            D,
            RoomError,
        >(displays->Ok_0@[0]),
{
}

/// A publication that is waited for is shared, or, if it failed, not waited for any more
/// and the failure is passed on. One that is not waited for is taken back, and its
/// failure is of no interest. Nothing else changes.
pub proof fn law_publication_is_kept_if_waited_for<F, T, P>(
    room: &mut Room<F, T, P>,
    publish_id: usize,
    publication: Result<P, RoomError>,
    cx: &mut Context<P>,
    result: Result<(), RoomError>,
)
    requires
        call_ensures(
            Room::<F, T, P>::screen_published,
            (room, publish_id, publication, cx),
            result,
        ),
    ensures
        ({
            let before = old(room)@;
            let after = final(room)@;
            let live_kit = before.live_kit->0;
            let awaited = before.live_kit is Some && live_kit.screen_track == (ScreenTrack::<
                P,
            >::Pending { publish_id });
            &&& before.live_kit is None ==> {
                &&& result == Err::<(), RoomError>(RoomError::LiveKitNotInitialized)
                &&& after == before
                &&& final(cx)@ == old(cx)@
            }
            &&& awaited && publication is Ok ==> {
                &&& result is Ok
                &&& after.live_kit->0.screen_track == ScreenTrack::Published(publication->Ok_0)
            }
            &&& awaited && publication is Err ==> {
                &&& result == Err::<(), RoomError>(publication->Err_0)
                &&& after.live_kit->0.screen_track is NotShared
            }
            &&& awaited ==> {
                &&& after.live_kit is Some
                &&& after.live_kit->0.next_publish_id == live_kit.next_publish_id
                &&& after == (RoomView { live_kit: after.live_kit, ..before })
                &&& final(cx)@ == old(cx)@.push(EffectView::Notify)
            }
            &&& before.live_kit is Some && !awaited ==> {
                &&& result is Ok
                &&& after == before
                &&& publication is Ok ==> final(cx)@ == old(cx)@.push(
                    EffectView::UnpublishTrack(publication->Ok_0),
                )
                &&& publication is Err ==> final(cx)@ == old(cx)@
            }
        }),
{
    let before = old(room)@;
    if before.live_kit is None {
        assert(final(cx)@ =~= old(cx)@);
    } else if before.awaits_publication(publish_id) {
        assert(final(cx)@ =~= old(cx)@.push(EffectView::Notify));
    } else if publication is Ok {
        assert(final(cx)@ =~= old(cx)@.push(EffectView::UnpublishTrack(publication->Ok_0)));
    } else {
        assert(final(cx)@ =~= old(cx)@);
    }
}

/// A screen that is shared or about to be can be unshared, and the track is taken back
/// if there is one. Publication ids are not given out again. It is refused if the room
/// has been left, if there is no media connection, or if the screen is not shared.
pub proof fn law_screen_can_be_unshared<F, T, P>(
    room: &mut Room<F, T, P>,
    cx: &mut Context<P>,
    result: Result<(), RoomError>,
)
    requires
        call_ensures(Room::<F, T, P>::unshare_screen, (room, cx), result),
    ensures
        ({
            let before = old(room)@;
            let after = final(room)@;
            let live_kit = before.live_kit->0;
            &&& before.status is Offline ==> result == Err::<(), RoomError>(RoomError::Offline)
            &&& before.status is Online && before.live_kit is None ==> result == Err::<
                (),
                RoomError,
            >(RoomError::LiveKitNotInitialized)
            &&& before.status is Online && before.live_kit is Some
                && live_kit.screen_track is NotShared ==> result == Err::<(), RoomError>(
                RoomError::ScreenNotShared,
            )
            &&& before.status is Online && before.live_kit is Some && !(
            live_kit.screen_track is NotShared) ==> {
                &&& result is Ok
                &&& after.live_kit is Some
                &&& after.live_kit->0.screen_track is NotShared
                &&& after.live_kit->0.next_publish_id == live_kit.next_publish_id
                &&& after == (RoomView { live_kit: after.live_kit, ..before })
                &&& live_kit.screen_track is Pending ==> final(cx)@ == old(cx)@.push(
                    EffectView::Notify,
                )
                &&& live_kit.screen_track matches ScreenTrack::Published(track) ==> final(cx)@
                    == old(cx)@.push(EffectView::UnpublishTrack(track)).push(EffectView::Notify)
            }
            &&& result is Err ==> after == before && final(cx)@ == old(cx)@
        }),
{
    let before = old(room)@;
    if result is Err {
        assert(final(cx)@ =~= old(cx)@);
    } else if let ScreenTrack::Published(track) = before.live_kit->0.screen_track {
        assert(final(cx)@ =~= old(cx)@.push(EffectView::UnpublishTrack(track)).push(
            EffectView::Notify,
        ));
    } else {
        assert(final(cx)@ =~= old(cx)@.push(EffectView::Notify));
    }
}

/// Whether the message tells the room that the participant works on `project`: by its id
/// if it is shared.
pub open spec fn tells_location(
    message: proto::UpdateParticipantLocation,
    room_id: u64,
    project: Option<Project>,
) -> bool {
    &&& message.room_id == room_id
    &&& message.location is Some
    &&& message.location->0.variant is Some
    &&& message.location->0.variant->0 == match project {
        None => proto::LocationVariant::External,
        Some(project) => match project.remote_id {
            None => proto::LocationVariant::UnsharedProject,
            Some(id) => proto::LocationVariant::SharedProject { id },
        },
    }
}

/// In every room that the participant is in, whatever project was active before, the
/// room is told of a shared project by its id, of one that is not shared as such, and of
/// no project as being outside. The project is the active one from then on, and nothing
/// else changes. A room that has been left is told nothing.
pub proof fn law_location_is_the_project<F, T, P>(
    room: &mut Room<F, T, P>,
    project: Option<&Project>,
    cx: &mut Context<P>,
    result: Result<proto::UpdateParticipantLocation, RoomError>,
)
    requires
        call_ensures(Room::<F, T, P>::set_location, (room, project, cx), result),
    ensures
        ({
            let before = old(room)@;
            let after = final(room)@;
            &&& before.status is Online ==> {
                &&& result is Ok
                &&& tells_location(
                    result->Ok_0,
                    before.id,
                    match project {
                        Some(project) => Some(*project),
                        None => None,
                    },
                )
                &&& project is None ==> after.local_participant.active_project is None
                &&& project matches Some(project) ==> after.local_participant.active_project
                    == Some(project.handle)
                &&& after.local_participant.projects == before.local_participant.projects
                &&& after == (RoomView { local_participant: after.local_participant, ..before })
                &&& final(cx)@ == old(cx)@.push(EffectView::Notify)
            }
            &&& before.status is Offline ==> {
                &&& result == Err::<proto::UpdateParticipantLocation, RoomError>(
                    RoomError::Offline,
                )
                &&& after == before
                &&& final(cx)@ == old(cx)@
            }
        }),
{
    if old(room)@.status is Online {
        assert(final(cx)@ =~= old(cx)@.push(EffectView::Notify));
    } else {
        assert(final(cx)@ =~= old(cx)@);
    }
}

/// When a project is shared, the room is told where the participant works exactly if it
/// is the active project. Then it is refused if the room has been left. Nothing in the
/// room changes.
pub proof fn law_sharing_tells_of_the_active_project<F, T, P>(
    room: &mut Room<F, T, P>,
    project: &Project,
    cx: &mut Context<P>,
    result: Result<Option<proto::UpdateParticipantLocation>, RoomError>,
)
    requires
        call_ensures(Room::<F, T, P>::project_shared, (room, project, cx), result),
    ensures
        ({
            let before = old(room)@;
            let active = before.local_participant.active_project == Some(project.handle);
            &&& final(room)@ == before
            &&& active && before.status is Online ==> {
                &&& result is Ok
                &&& result->Ok_0 is Some
                &&& tells_location(result->Ok_0->0, before.id, Some(*project))
                &&& final(cx)@ == old(cx)@.push(EffectView::Notify)
            }
            &&& active && before.status is Offline ==> result == Err::<
                Option<proto::UpdateParticipantLocation>,
                RoomError,
            >(RoomError::Offline)
            &&& !active ==> result == Ok::<Option<proto::UpdateParticipantLocation>, RoomError>(
                None,
            )
            &&& !(active && before.status is Online) ==> final(cx)@ == old(cx)@
        }),
{
    let before = old(room)@;
    let active = before.local_participant.active_project == Some(project.handle);
    if active && before.status is Online {
        assert(final(cx)@ =~= old(cx)@.push(EffectView::Notify));
    } else {
        assert(final(cx)@ =~= old(cx)@);
    }
    assert(final(room)@ =~= before);
}

/// A project that has been shared is not shared again. For another one the server is
/// asked, and told of the room and of every folder as it is.
pub proof fn law_share_request_tells_of_every_folder<F, T, P>(
    room: &Room<F, T, P>,
    project: &Project,
    step: ShareProjectStep,
)
    requires
        call_ensures(Room::<F, T, P>::share_project, (room, project), step),
    ensures
        project.remote_id matches Some(id) ==> step == (ShareProjectStep::AlreadyShared {
            project_id: id,
        }),
        project.remote_id is None ==> {
            let request = step->Request_0;
            &&& step is Request
            &&& request.room_id == room@.id
            &&& request.worktrees@.len() == project.worktrees@.len()
            &&& forall|i: int|
                0 <= i < request.worktrees@.len() ==> {
                    let told = #[trigger] request.worktrees@[i];
                    let folder = project.worktrees@[i];
                    &&& told.id == folder.id
                    &&& told.root_name@ == folder.root_name@
                    &&& told.visible == folder.is_visible
                    &&& told.abs_path@ == folder.abs_path@
                }
        },
{
    if project.remote_id is None {
        let request = step->Request_0;
        assert(request@ == project.share_request(room@.id));
        assert(request@.worktrees.len() == project.worktrees@.len());
        assert forall|i: int| 0 <= i < request.worktrees@.len() implies {
            let told = #[trigger] request.worktrees@[i];
            let folder = project.worktrees@[i];
            &&& told.id == folder.id
            &&& told.root_name@ == folder.root_name@
            &&& told.visible == folder.is_visible
            &&& told.abs_path@ == folder.abs_path@
        } by {
            assert(request@.worktrees[i] == request.worktrees@[i]@);
            assert(request@.worktrees[i] == project.worktrees@[i].described());
        }
    }
}

/// Sharing a project ends with its id exactly if the server answers and the room could
/// be told. Of two failures that of the server is reported.
pub proof fn law_sharing_ends_with_the_id<F, T, P>(
    response: Result<proto::ShareProjectResponse, RoomError>,
    told: Result<(), RoomError>,
    result: Result<u64, RoomError>,
)
    requires
        call_ensures(Room::<F, T, P>::sharing_result, (response, told), result),
    ensures
        response matches Err(error) ==> result == Err::<u64, RoomError>(error),
        response is Ok ==> {
            &&& told matches Err(error) ==> result == Err::<u64, RoomError>(error)
            &&& told is Ok ==> result == Ok::<u64, RoomError>(response->Ok_0.project_id)
        },
{
}

} // verus!

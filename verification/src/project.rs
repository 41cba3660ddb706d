//! The projects that are open in this process.

use crate::participant::ProjectHandle;
use crate::proto::{ShareProject, ShareProjectView, WorktreeMetadata, WorktreeMetadataView};
use vstd::prelude::*;

verus! {

/// A folder of a project.
#[derive(Debug, PartialEq, Eq)]
pub struct Worktree {
    pub id: u64,
    pub root_name: String,
    pub is_visible: bool,
    pub abs_path: Vec<u8>,
}

impl Worktree {
    /// What the server is told of the folder.
    pub open spec fn described(self) -> WorktreeMetadataView {
        WorktreeMetadataView {
            id: self.id,
            root_name: self.root_name@,
            visible: self.is_visible,
            abs_path: self.abs_path@,
        }
    }

    /// What the server is told of the folder.
    pub fn to_proto(&self) -> (metadata: WorktreeMetadata)
        ensures
            metadata@ == self.described(),
    {
        let abs_path = self.abs_path.clone();
        assert(abs_path@ =~= self.abs_path@);
        WorktreeMetadata {
            id: self.id,
            root_name: self.root_name.clone(),
            visible: self.is_visible,
            abs_path,
        }
    }
}

/// A project that is open in this process. It has a remote id once it has been
/// shared.
#[derive(Debug, PartialEq, Eq)]
pub struct Project {
    pub handle: ProjectHandle,
    pub remote_id: Option<u64>,
    pub worktrees: Vec<Worktree>,
}

impl Project {
    /// The request to share the project with a room.
    pub open spec fn share_request(self, room_id: u64) -> ShareProjectView {
        ShareProjectView {
            room_id,
            worktrees: self.worktrees@.map_values(|w: Worktree| w.described()),
        }
    }

    /// The request to share the project with a room.
    pub fn to_share_request(&self, room_id: u64) -> (request: ShareProject)
        ensures
            request@ == self.share_request(room_id),
    {
        let mut worktrees: Vec<WorktreeMetadata> = Vec::new();
        let mut i: usize = 0;
        while i < self.worktrees.len()
            invariant
                i <= self.worktrees@.len(),
                worktrees@.len() == i,
                forall|j: int|
                    0 <= j < i ==> #[trigger] worktrees@[j]@ == self.worktrees@[j].described(),
            decreases self.worktrees@.len() - i,
        {
            worktrees.push(self.worktrees[i].to_proto());
            i += 1;
        }
        let request = ShareProject { room_id, worktrees };
        assert(request@.worktrees =~= self.share_request(room_id).worktrees);
        request
    }
}

} // verus!

//! `tp7 ls`: what a listing of a remote path shows.
use vstd::prelude::*;

use crate::mtp::{ObjectInfo, is_folder_object};
use crate::remote::{RemoteObject, RemoteTarget, remote_object_matches};

verus! {

/// An entry of a listing.
pub type LsEntry = RemoteObject;

/// The report of `tp7 ls`.
#[derive(Debug)]
pub struct LsReport {
    pub path: String,
    pub storage_id: u32,
    pub entries: Vec<LsEntry>,
}

/// What a listing of a resolved path shows.
pub enum LsStep {
    /// The children of the root (`None`) or of a folder.
    Children(Option<u32>),
    /// A file alone.
    Single(LsEntry),
}

/// What a listing of the resolved target shows: a folder's (or the root's) children,
/// or the file itself.
pub fn ls_step(target: RemoteTarget) -> (res: LsStep)
    ensures
        match target {
            RemoteTarget::Root => res matches LsStep::Children(h) && h.is_none(),
            RemoteTarget::Object(o) => if is_folder_object(o) {
                res matches LsStep::Children(h) && h == Some(o.handle)
            } else {
                res matches LsStep::Single(e) && remote_object_matches(e, o)
            },
        },
{
    match target {
        RemoteTarget::Root => LsStep::Children(None),
        RemoteTarget::Object(o) => {
            if o.is_folder() {
                LsStep::Children(Some(o.handle))
            } else {
                LsStep::Single(RemoteObject::from_object(o))
            }
        },
    }
}

} // verus!

//! `tp7 mkdir`, `tp7 rename` and `tp7 rm`: the checks before each change on the device
//! and the reports after it.
use vstd::prelude::*;

use crate::error::AppError;
use crate::mtp::{ObjectInfo, is_folder_object};
use crate::mtp_session::{MtpOpenPolicy, map_mtp_error};
use crate::remote::{
    RemoteObject, RemoteTarget, ResolvedPath, format_path, has_dot_component, join_remote_path,
    parent_remote_path, path_components, remote_object_matches, spec_components,
    spec_format_path, spec_join_remote_path, spec_parent_path, strings_view,
};
use crate::text::{chars_are, chars_of, find_char, first_index_of};

verus! {

/// The report of `tp7 mkdir`.
#[derive(Debug, Clone)]
pub struct MkdirReport {
    pub path: String,
    pub created: Vec<String>,
}

/// The report of `tp7 rename`.
#[derive(Debug)]
pub struct RenameReport {
    pub old_path: String,
    pub new_path: String,
    pub object: RemoteObject,
}

/// The report of `tp7 rm`.
#[derive(Debug)]
pub struct RmReport {
    pub path: String,
    pub dry_run: bool,
    pub removed: Vec<RemoteObject>,
}

/// The policy the writing commands open their session with: switching the device needs
/// `--auto-connect`.
pub fn open_policy(auto_connect: bool) -> (res: MtpOpenPolicy)
    ensures
        res == (if auto_connect {
            MtpOpenPolicy::AutoSwitch
        } else {
            MtpOpenPolicy::RequireAutoConnectFlag
        }),
{
    if auto_connect {
        MtpOpenPolicy::AutoSwitch
    } else {
        MtpOpenPolicy::RequireAutoConnectFlag
    }
}

/// Whether a name can name an object: not empty, not `.` or `..`, no `/`.
pub open spec fn is_valid_remote_name(name: Seq<char>) -> bool {
    name.len() > 0 && name != "."@ && name != ".."@ && first_index_of(name, '/') < 0
}

/// Checks that a name can name an object.
pub fn validate_remote_name(name: &str) -> (res: Result<(), AppError>)
    ensures
        is_valid_remote_name(name@) ==> res is Ok,
        !is_valid_remote_name(name@) ==> (res matches Err(AppError::InvalidRemotePath { path, message })
            && path@ == name@ && message@ == "remote object names cannot contain path separators"@),
        res is Err <==> (name@.len() == 0 || name@ == "."@ || name@ == ".."@ || name@.contains('/')),
{
    proof {
        crate::text::lemma_index_found(name@, '/');
    }
    let n = chars_of(name);
    if n.len() == 0 || chars_are(n.as_slice(), ".") || chars_are(n.as_slice(), "..") || find_char(
        n.as_slice(),
        '/',
    ).is_some() {
        return Err(
            AppError::InvalidRemotePath {
                path: String::from_str(name),
                message: String::from_str("remote object names cannot contain path separators"),
            },
        );
    }
    Ok(())
}

/// The path an object gets when renamed: the new name in the same folder.
pub fn renamed_path(old_path: &str, new_name: &str) -> (res: String)
    ensures
        res@ == spec_join_remote_path(spec_parent_path(old_path@), new_name@),
{
    let parent = parent_remote_path(old_path);
    join_remote_path(parent.as_str(), new_name)
}

/// The MTP response codes with which the device refuses to create folders: General
/// Error, Operation Not Supported, Store Read-Only and Access Denied.
pub open spec fn is_folder_refusal(code: u16) -> bool {
    code == 0x2002 || code == 0x2005 || code == 0x200E || code == 0x200F
}

/// The error for a failed folder creation: a refusal by the device is "not supported";
/// other failures are reported as MTP failures. `code` is the response code, if the
/// device answered with one; `message` describes the failure.
pub fn map_create_folder_error(code: Option<u16>, exclusive_access: bool, message: String) -> (res: AppError)
    ensures
        (code matches Some(c) && is_folder_refusal(c)) ==> (res matches AppError::MtpUnsupported {
            message: m,
        } && m@ == "TP-7 rejected folder creation ("@ + message@ + ")"@),
        !(code matches Some(c) && is_folder_refusal(c)) ==> res == (if exclusive_access {
            AppError::MtpExclusiveAccess { message }
        } else {
            AppError::Mtp { message }
        }),
{
    let refused = match code {
        Some(c) => c == 0x2002 || c == 0x2005 || c == 0x200E || c == 0x200F,
        None => false,
    };
    if refused {
        let mut m = String::from_str("TP-7 rejected folder creation (");
        m.append(message.as_str());
        m.append(")");
        return AppError::MtpUnsupported { message: m };
    }
    map_mtp_error(exclusive_access, message)
}

// ---------------------------------------------------------------------------
// mkdir
// ---------------------------------------------------------------------------

/// A `tp7 mkdir` under way: the components of the path, how many are done, the folder
/// reached so far (`None` for the root) and its path, and the folders created.
pub struct MkdirPlan {
    pub components: Vec<String>,
    pub index: usize,
    pub parent: Option<u32>,
    pub current_path: String,
    pub created: Vec<String>,
    pub path: String,
    pub parents: bool,
}

/// The invariant of a `tp7 mkdir` under way: the folder reached is the one at the
/// first `index` components.
pub open spec fn mkdir_wf(p: MkdirPlan) -> bool {
    &&& p.index <= p.components@.len()
    &&& p.components@.len() > 0
    &&& forall|i: int|
        0 <= i < p.components@.len() ==> (#[trigger] p.components@[i]@).len() > 0
            && !p.components@[i]@.contains('/')
    &&& p.current_path@ == spec_format_path(strings_view(p.components@).take(p.index as int))
}

/// What to do once the folder's child of the next component's name is known.
pub enum MkdirAction {
    /// The folder exists; it was entered.
    Entered,
    /// It must be created under `parent` with `name`.
    Create { parent: Option<u32>, name: String },
}

/// Starts `tp7 mkdir` of `remote_path` (`parents` creates missing folders on the way).
pub fn start_mkdir(remote_path: &str, parents: bool) -> (res: Result<MkdirPlan, AppError>)
    ensures
        ({
            let cs = spec_components(remote_path@);
            if has_dot_component(cs) {
                res matches Err(e) && crate::remote::is_dot_component_error(e, remote_path@)
            } else if cs.len() == 0 {
                res matches Err(AppError::RemotePathIsRoot)
            } else {
                res matches Ok(p) && mkdir_wf(p) && strings_view(p.components@) == cs && p.index == 0
                    && p.parent.is_none() && p.created@.len() == 0 && p.path@ == spec_format_path(cs)
                    && p.parents == parents
            }
        }),
{
    let components = path_components(remote_path)?;
    if components.len() == 0 {
        return Err(AppError::RemotePathIsRoot);
    }
    let path = format_path(components.as_slice());
    let mut current_path = String::new();
    crate::text::push_char(&mut current_path, '/');
    let res = MkdirPlan {
        components,
        index: 0,
        parent: None,
        current_path,
        created: Vec::new(),
        path,
        parents,
    };
    assert(strings_view(res.components@).take(0) =~= Seq::<Seq<char>>::empty());
    proof {
        crate::remote::lemma_components_shape(remote_path@);
        assert forall|i: int| 0 <= i < res.components@.len() implies (#[trigger] res.components@[i]@).len() > 0
            && !res.components@[i]@.contains('/') by {
            assert(strings_view(res.components@)[i] == res.components@[i]@);
        }
    }
    Ok(res)
}

impl MkdirPlan {
    /// The next component to look up in the folder reached, once it is checked to be a
    /// valid name; `None` when every component is done.
    pub fn next_component(&self) -> (res: Option<Result<String, AppError>>)
        requires
            mkdir_wf(*self),
        ensures
            self.index == self.components@.len() ==> res.is_none(),
            self.index < self.components@.len() ==> {
                let c = self.components@[self.index as int]@;
                res matches Some(r) && if is_valid_remote_name(c) {
                    r matches Ok(name) && name@ == c
                } else {
                    r matches Err(AppError::InvalidRemotePath { path, message }) && path@ == c
                        && message@ == "remote object names cannot contain path separators"@
                }
            },
    {
        if self.index == self.components.len() {
            return None;
        }
        let component = &self.components[self.index];
        match validate_remote_name(component.as_str()) {
            Ok(()) => Some(Ok(component.clone())),
            Err(e) => Some(Err(e)),
        }
    }

    /// Acts on the lookup of the next component (`existing`: the child of that name):
    /// an existing folder is entered, unless it is the last component and `--parents`
    /// is not given; an existing file is an error; a missing folder is created, which
    /// needs `--parents` unless it is the last component.
    pub fn on_lookup(&mut self, existing: Option<ObjectInfo>) -> (res: Result<MkdirAction, AppError>)
        requires
            mkdir_wf(*old(self)),
            old(self).index < old(self).components@.len(),
        ensures
            final(self).components == old(self).components,
            final(self).created == old(self).created,
            final(self).path == old(self).path,
            final(self).parents == old(self).parents,
            ({
                let c = old(self).components@[old(self).index as int]@;
                let child = spec_join_remote_path(old(self).current_path@, c);
                let last = old(self).index + 1 == old(self).components@.len();
                match existing {
                    Some(e) => if is_folder_object(e) && !(last && !old(self).parents) {
                        res matches Ok(MkdirAction::Entered) && mkdir_wf(*final(self))
                            && final(self).index == old(self).index + 1 && final(self).parent == Some(
                            e.handle,
                        )
                    } else {
                        res matches Err(AppError::RemotePathExists { path }) && path@ == child
                    },
                    None => if !old(self).parents && !last {
                        res matches Err(AppError::RemotePathNotFound { path }) && path@ == child
                    } else {
                        res matches Ok(MkdirAction::Create { parent, name }) && parent == old(
                            self,
                        ).parent && name@ == c && *final(self) == *old(self)
                    },
                }
            }),
    {
        let component = self.components[self.index].clone();
        let child_path = join_remote_path(self.current_path.as_str(), component.as_str());
        let last = self.components.len() - self.index == 1;
        match existing {
            Some(e) => {
                if e.is_folder() && !(last && !self.parents) {
                    proof {
                        let cs = strings_view(self.components@);
                        assert(cs.take(self.index + 1) =~= cs.take(self.index as int).push(cs[self.index as int]));
                        assert forall|i: int| 0 <= i < cs.take(self.index as int).len() implies #[trigger] cs.take(self.index as int)[i].len() > 0
                            && !cs.take(self.index as int)[i].contains('/') by {
                            assert(cs[i] == self.components@[i]@);
                        }
                        crate::remote::lemma_format_push(cs.take(self.index as int), cs[self.index as int]);
                    }
                    self.parent = Some(e.handle);
                    self.current_path = child_path;
                    self.index = self.index + 1;
                    Ok(MkdirAction::Entered)
                } else {
                    Err(AppError::RemotePathExists { path: child_path })
                }
            },
            None => {
                if !self.parents && !last {
                    return Err(AppError::RemotePathNotFound { path: child_path });
                }
                Ok(MkdirAction::Create { parent: self.parent, name: component })
            },
        }
    }

    /// Records that the next component was created as the folder `handle`, and enters
    /// it.
    pub fn on_created(&mut self, handle: u32)
        requires
            mkdir_wf(*old(self)),
            old(self).index < old(self).components@.len(),
        ensures
            mkdir_wf(*final(self)),
            final(self).index == old(self).index + 1,
            final(self).parent == Some(handle),
            final(self).components == old(self).components,
            final(self).path == old(self).path,
            final(self).parents == old(self).parents,
            final(self).created@ == old(self).created@.push(final(self).current_path),
            final(self).current_path@ == spec_join_remote_path(
                old(self).current_path@,
                old(self).components@[old(self).index as int]@,
            ),
    {
        let n = self.components.len();
        assert(self.index < n);
        let child_path = join_remote_path(
            self.current_path.as_str(),
            self.components[self.index].as_str(),
        );
        proof {
            let cs = strings_view(self.components@);
            assert(cs.take(self.index + 1) =~= cs.take(self.index as int).push(cs[self.index as int]));
            assert forall|i: int| 0 <= i < cs.take(self.index as int).len() implies #[trigger] cs.take(self.index as int)[i].len() > 0
                && !cs.take(self.index as int)[i].contains('/') by {
                assert(cs[i] == self.components@[i]@);
            }
            crate::remote::lemma_format_push(cs.take(self.index as int), cs[self.index as int]);
        }
        self.created.push(child_path.clone());
        self.parent = Some(handle);
        self.current_path = child_path;
        self.index = self.index + 1;
    }

    /// The report once every component is done.
    pub fn report(self) -> (res: MkdirReport)
        ensures
            res.path == self.path,
            res.created == self.created,
    {
        MkdirReport { path: self.path, created: self.created }
    }
}

// ---------------------------------------------------------------------------
// rename
// ---------------------------------------------------------------------------

/// A rename about to happen: the object, its path, its new path and the folder that
/// must not hold the new name yet.
pub struct RenamePlan {
    pub object: ObjectInfo,
    pub old_path: String,
    pub new_path: String,
    pub parent: Option<u32>,
}

/// Plans renaming the object at the resolved path to `new_name`; the root cannot be
/// renamed.
pub fn rename_plan(resolved: ResolvedPath, new_name: &str) -> (res: Result<RenamePlan, AppError>)
    ensures
        match resolved.target {
            RemoteTarget::Root => res matches Err(AppError::RemotePathIsRoot),
            RemoteTarget::Object(o) => res matches Ok(p) && p.object == o && p.old_path
                == resolved.path && p.new_path@ == spec_join_remote_path(
                spec_parent_path(resolved.path@),
                new_name@,
            ) && p.parent == (if o.parent == 0 {
                None
            } else {
                Some(o.parent)
            }),
        },
{
    match resolved.target {
        RemoteTarget::Root => Err(AppError::RemotePathIsRoot),
        RemoteTarget::Object(object) => {
            let new_path = renamed_path(resolved.path.as_str(), new_name);
            let parent = crate::push::parent_handle(object.parent);
            Ok(RenamePlan { object, old_path: resolved.path, new_path, parent })
        },
    }
}

/// The rename is refused when the folder already holds the new name.
pub fn check_rename_target(plan: &RenamePlan, existing: &Option<ObjectInfo>) -> (res: Result<(), AppError>)
    ensures
        existing.is_some() ==> (res matches Err(AppError::RemotePathExists { path }) && path
            == plan.new_path),
        existing.is_none() ==> res is Ok,
{
    if existing.is_some() {
        return Err(AppError::RemotePathExists { path: plan.new_path.clone() });
    }
    Ok(())
}

/// The report once the object was renamed to `new_name`.
pub fn rename_report(plan: RenamePlan, new_name: &str) -> (res: RenameReport)
    ensures
        res.old_path == plan.old_path,
        res.new_path == plan.new_path,
        remote_object_matches(res.object, ObjectInfo { filename: res.object.name, ..plan.object }),
        res.object.name@ == new_name@,
{
    let mut renamed = plan.object;
    renamed.filename = String::from_str(new_name);
    RenameReport {
        old_path: plan.old_path,
        new_path: plan.new_path,
        object: RemoteObject::from_object(renamed),
    }
}

// ---------------------------------------------------------------------------
// rm
// ---------------------------------------------------------------------------

/// A removal about to happen: the report, and the object to delete (none for a dry
/// run or when there is nothing to remove).
pub struct RmPlan {
    pub report: RmReport,
    pub delete: Option<u32>,
}

/// Plans `tp7 rm` from the resolution of `remote_path`: a missing path is nothing to do
/// with `--force`; the root is never removed; a folder needs `--recursive`; a dry run
/// deletes nothing.
pub fn rm_plan(result: Result<ResolvedPath, AppError>, remote_path: &str, recursive: bool, force: bool, dry_run: bool) -> (res: Result<RmPlan, AppError>)
    ensures
        match result {
            Err(AppError::RemotePathNotFound { path }) => if force {
                res matches Ok(p) && p.report.path@ == remote_path@ && p.report.dry_run == dry_run
                    && p.report.removed@.len() == 0 && p.delete.is_none()
            } else {
                res == Err::<RmPlan, AppError>(AppError::RemotePathNotFound { path })
            },
            Err(e) => res == Err::<RmPlan, AppError>(e),
            Ok(resolved) => match resolved.target {
                RemoteTarget::Root => res matches Err(AppError::RemotePathIsRoot),
                RemoteTarget::Object(o) => if is_folder_object(o) && !recursive {
                    res matches Err(AppError::RemotePathIsFolder { path }) && path == resolved.path
                } else {
                    res matches Ok(p) && p.report.path == resolved.path && p.report.dry_run == dry_run
                        && p.report.removed@.len() == 1 && remote_object_matches(
                        p.report.removed@[0],
                        o,
                    ) && p.delete == (if dry_run {
                        None
                    } else {
                        Some(o.handle)
                    })
                },
            },
        },
{
    let resolved = match result {
        Ok(r) => r,
        Err(AppError::RemotePathNotFound { path }) => {
            if force {
                return Ok(
                    RmPlan {
                        report: RmReport {
                            path: String::from_str(remote_path),
                            dry_run,
                            removed: Vec::new(),
                        },
                        delete: None,
                    },
                );
            }
            return Err(AppError::RemotePathNotFound { path });
        },
        Err(e) => {
            return Err(e);
        },
    };
    match resolved.target {
        RemoteTarget::Root => Err(AppError::RemotePathIsRoot),
        RemoteTarget::Object(object) => {
            if object.is_folder() && !recursive {
                return Err(AppError::RemotePathIsFolder { path: resolved.path });
            }
            let handle = object.handle;
            let mut removed: Vec<RemoteObject> = Vec::new();
            removed.push(RemoteObject::from_object(object));
            let delete = if dry_run {
                None
            } else {
                Some(handle)
            };
            Ok(RmPlan { report: RmReport { path: resolved.path, dry_run, removed }, delete })
        },
    }
}

} // verus!

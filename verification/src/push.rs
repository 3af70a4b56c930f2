//! `tp7 push`: where uploaded files go on the device, when an existing object may be
//! replaced, the plan of a folder upload, and the report of what was transferred.
use vstd::prelude::*;

use crate::error::AppError;
use crate::local_path::{file_name_of, path_file_name};
use crate::mtp::{ObjectInfo, is_folder_object};
use crate::order::{SortOrder, lex_le, lex_lt, lex_lt_exec, lemma_lex_transitive, lemma_lex_trichotomy, sort_stable, sorted_by_order};
use crate::remote::{
    RemoteTarget, ResolvedPath, first_named, find_named, format_path, has_dot_component,
    join_remote_path, parent_remote_path, path_components, spec_components, spec_format_path,
    spec_join_remote_path, spec_parent_path,
};
use crate::text::{
    chars_of, push_decimal, push_decimal_u128, spec_decimal, spec_trim, string_of, trim_chars,
};

verus! {

/// The size of the chunks a file is uploaded in.
pub const UPLOAD_CHUNK_SIZE: usize = 262144;

/// The report of `tp7 push`.
#[derive(Debug, Clone)]
pub struct PushReport {
    pub local_path: String,
    pub remote_path: String,
    pub dry_run: bool,
    pub uploaded: usize,
    pub total_bytes: u64,
    pub files: Vec<PushFileReport>,
}

/// One file of a push.
#[derive(Debug, Clone, PartialEq, Eq)]
pub struct PushFileReport {
    pub local_path: String,
    pub remote_path: String,
    pub size: u64,
    pub status: PushStatus,
}

/// What happened to one file of a push.
#[derive(Debug, Clone, Copy, PartialEq, Eq, Structural)]
pub enum PushStatus {
    Uploaded,
    DryRun,
}

/// The options of `tp7 push`.
#[derive(Debug, Clone, Copy)]
pub struct PushOptions {
    pub recursive: bool,
    pub overwrite: bool,
    pub dry_run: bool,
    pub progress: bool,
}

/// Where one file goes on the device: the folder (`None` for the root), its path and
/// name, and the object it replaces, if one exists there.
pub struct RemoteDestination {
    pub parent: Option<u32>,
    pub path: String,
    pub name: String,
    pub existing: Option<ObjectInfo>,
}

/// A remote folder: its handle (`None` for the root) and path.
pub struct RemoteFolder {
    pub parent: Option<u32>,
    pub path: String,
}

/// One file of a folder upload.
pub struct PushPlanItem {
    pub local_path: String,
    pub destination: RemoteDestination,
    pub size: u64,
}

/// The folder handle for an object's parent: the root (handle 0) is `None`.
pub fn parent_handle(parent: u32) -> (res: Option<u32>)
    ensures
        res == (if parent == 0 {
            None
        } else {
            Some(parent)
        }),
{
    if parent == 0 {
        None
    } else {
        Some(parent)
    }
}

/// Whether writing to a destination is allowed: an existing folder is never
/// replaced, an existing file only with `--overwrite`.
pub fn validate_destination_for_write(destination: &RemoteDestination, overwrite: bool) -> (res: Result<(), AppError>)
    ensures
        match destination.existing {
            None => res is Ok,
            Some(e) => if is_folder_object(e) {
                res matches Err(AppError::RemotePathIsFolder { path }) && path@ == destination.path@
            } else if !overwrite {
                res matches Err(AppError::RemotePathExists { path }) && path@ == destination.path@
            } else {
                res is Ok
            },
        },
{
    if let Some(existing) = &destination.existing {
        if existing.is_folder() {
            return Err(AppError::RemotePathIsFolder { path: destination.path.clone() });
        }
        if !overwrite {
            return Err(AppError::RemotePathExists { path: destination.path.clone() });
        }
    }
    Ok(())
}

/// Whether a local source can be pushed: a folder only with `--recursive`, and
/// nothing but folders and plain files.
pub fn validate_local_source(local_path: &str, is_dir: bool, is_file: bool, options: PushOptions) -> (res: Result<(), AppError>)
    ensures
        is_dir && !options.recursive ==> (res matches Err(AppError::LocalPathIsFolder { path })
            && path@ == local_path@),
        !is_dir && !is_file ==> (res matches Err(AppError::FileSystem { path, message }) && path@
            == local_path@ && message@ == "unsupported local file type"@),
        (is_dir && options.recursive) || (!is_dir && is_file) ==> res is Ok,
{
    if is_dir && !options.recursive {
        return Err(AppError::LocalPathIsFolder { path: String::from_str(local_path) });
    }
    if !is_dir && !is_file {
        return Err(unsupported_file_type(local_path));
    }
    Ok(())
}

/// The error for a local entry that is neither a folder nor a plain file.
pub fn unsupported_file_type(path: &str) -> (res: AppError)
    ensures
        res matches AppError::FileSystem { path: p, message } && p@ == path@ && message@
            == "unsupported local file type"@,
{
    AppError::FileSystem {
        path: String::from_str(path),
        message: String::from_str("unsupported local file type"),
    }
}

/// The name a local file gets on the device: the last component of its path.
pub fn local_file_name(path: &str) -> (res: Result<String, AppError>)
    ensures
        match path_file_name(path@) {
            Some(n) => res matches Ok(s) && s@ == n,
            None => res matches Err(AppError::InvalidArguments { message }) && message@
                == "local path must include a file name"@,
        },
{
    match file_name_of(path) {
        Some(n) => Ok(n),
        None => Err(
            AppError::InvalidArguments {
                message: String::from_str("local path must include a file name"),
            },
        ),
    }
}

/// The name of a temporary object next to `final_name` while it is replaced: the first
/// 120 characters of the final name, the label, the process id, a timestamp in
/// milliseconds and the attempt number.
pub open spec fn spec_temp_name(final_name: Seq<char>, label: Seq<char>, attempt: u32, pid: u32, stamp: u128) -> Seq<char> {
    final_name.take(if final_name.len() < 120 {
        final_name.len() as int
    } else {
        120
    }) + ".tp7cli-"@ + label + "-"@ + spec_decimal(pid as nat) + "-"@ + spec_decimal(stamp as nat)
        + "-"@ + spec_decimal(attempt as nat) + ".tmp"@
}

/// The name of a temporary object used while replacing `final_name`.
pub fn replacement_temp_name(final_name: &str, label: &str, attempt: u32, pid: u32, stamp: u128) -> (res: String)
    ensures
        res@ == spec_temp_name(final_name@, label@, attempt, pid, stamp),
{
    let chars = chars_of(final_name);
    let keep = if chars.len() < 120 {
        chars.len()
    } else {
        120
    };
    let clipped = crate::text::slice_chars(chars.as_slice(), 0, keep);
    let mut name = string_of(clipped.as_slice());
    name.append(".tp7cli-");
    name.append(label);
    name.append("-");
    push_decimal(&mut name, pid as u64);
    name.append("-");
    push_decimal_u128(&mut name, stamp);
    name.append("-");
    push_decimal(&mut name, attempt as u64);
    name.append(".tmp");
    name
}

/// The child of a folder listing with the given name, if any (the first one).
pub fn find_child(children: Vec<ObjectInfo>, name: &str) -> (res: Option<ObjectInfo>)
    ensures
        ({
            let i = first_named(children@, name@);
            if i < 0 {
                res.is_none()
            } else {
                res == Some(children@[i])
            }
        }),
{
    match find_named(children.as_slice(), name) {
        Some(i) => {
            let mut children = children;
            Some(children.remove(i))
        },
        None => None,
    }
}

/// The destination of a file inside a folder.
pub fn destination_in_folder(folder: RemoteFolder, name: String, existing: Option<ObjectInfo>) -> (res: RemoteDestination)
    ensures
        res.parent == folder.parent,
        res.path@ == spec_join_remote_path(folder.path@, name@),
        res.name == name,
        res.existing == existing,
{
    let path = join_remote_path(folder.path.as_str(), name.as_str());
    RemoteDestination { parent: folder.parent, path, name, existing }
}

/// How the destination of a file push starts: at the root for an empty path or `/`,
/// by resolving a folder for a path that ends with `/`, by resolving the path itself
/// otherwise (the path is trimmed first).
pub enum DestinationStep {
    InRoot,
    ResolveFolder(String),
    Resolve(String),
}

/// How the destination of a file push to `remote_path` starts.
pub fn file_destination_step(remote_path: &str) -> (res: DestinationStep)
    ensures
        ({
            let t = spec_trim(remote_path@);
            if t.len() == 0 || t == seq!['/'] {
                res is InRoot
            } else if t.last() == '/' {
                res matches DestinationStep::ResolveFolder(p) && p@ == t
            } else {
                res matches DestinationStep::Resolve(p) && p@ == t
            }
        }),
{
    let chars = chars_of(remote_path);
    let t = trim_chars(chars.as_slice());
    if t.len() == 0 || (t.len() == 1 && t[0] == '/') {
        proof {
            if t@.len() == 1 && t@[0] == '/' {
                assert(t@ =~= seq!['/']);
            }
        }
        return DestinationStep::InRoot;
    }
    proof {
        assert(t@ != seq!['/']);
    }
    if t[t.len() - 1] == '/' {
        DestinationStep::ResolveFolder(string_of(t.as_slice()))
    } else {
        DestinationStep::Resolve(string_of(t.as_slice()))
    }
}

/// The folder a path resolved to for a file push: the root stands as `/`; a file is an
/// error.
pub fn destination_folder(resolved: ResolvedPath) -> (res: Result<RemoteFolder, AppError>)
    ensures
        match resolved.target {
            RemoteTarget::Root => res matches Ok(f) && f.parent.is_none() && f.path@ == seq!['/'],
            RemoteTarget::Object(o) => if is_folder_object(o) {
                res matches Ok(f) && f.parent == Some(o.handle) && f.path == resolved.path
            } else {
                res matches Err(AppError::RemotePathNotDirectory { path }) && path == resolved.path
            },
        },
{
    match resolved.target {
        RemoteTarget::Root => {
            let mut root = String::new();
            crate::text::push_char(&mut root, '/');
            Ok(RemoteFolder { parent: None, path: root })
        },
        RemoteTarget::Object(o) => {
            if o.is_folder() {
                Ok(RemoteFolder { parent: Some(o.handle), path: resolved.path })
            } else {
                Err(AppError::RemotePathNotDirectory { path: resolved.path })
            }
        },
    }
}

/// The folder a folder push goes into: the resolved root or folder; a file is an error.
pub fn resolve_remote_folder(resolved: ResolvedPath) -> (res: Result<RemoteFolder, AppError>)
    ensures
        match resolved.target {
            RemoteTarget::Root => res matches Ok(f) && f.parent.is_none() && f.path == resolved.path,
            RemoteTarget::Object(o) => if is_folder_object(o) {
                res matches Ok(f) && f.parent == Some(o.handle) && f.path == resolved.path
            } else {
                res matches Err(AppError::RemotePathNotDirectory { path }) && path == resolved.path
            },
        },
{
    match resolved.target {
        RemoteTarget::Root => Ok(RemoteFolder { parent: None, path: resolved.path }),
        RemoteTarget::Object(o) => {
            if o.is_folder() {
                Ok(RemoteFolder { parent: Some(o.handle), path: resolved.path })
            } else {
                Err(AppError::RemotePathNotDirectory { path: resolved.path })
            }
        },
    }
}

/// What resolving the path of a file push found.
pub enum ResolvedDestination {
    /// A folder: the file goes inside it.
    Folder(RemoteFolder),
    /// An existing file, which the push replaces.
    Existing(RemoteDestination),
    /// Nothing: the file gets the last component as its name, in the folder before it.
    Missing { parent_path: String, name: String },
}

/// What a file push to `remote_path` (not ending with `/`) does after resolving it.
pub fn after_destination_resolve(result: Result<ResolvedPath, AppError>, remote_path: &str) -> (res: Result<ResolvedDestination, AppError>)
    ensures
        match result {
            Ok(resolved) => match resolved.target {
                RemoteTarget::Root => res matches Ok(ResolvedDestination::Folder(f)) && f.parent.is_none()
                    && f.path@ == seq!['/'],
                RemoteTarget::Object(o) => if is_folder_object(o) {
                    res matches Ok(ResolvedDestination::Folder(f)) && f.parent == Some(o.handle)
                        && f.path == resolved.path
                } else {
                    res matches Ok(ResolvedDestination::Existing(d)) && d.parent == (if o.parent
                        == 0 {
                        None
                    } else {
                        Some(o.parent)
                    }) && d.path == resolved.path && d.name == o.filename && d.existing == Some(o)
                },
            },
            Err(AppError::RemotePathNotFound { .. }) => {
                let cs = spec_components(remote_path@);
                if has_dot_component(cs) {
                    res matches Err(e) && crate::remote::is_dot_component_error(e, remote_path@)
                } else if cs.len() == 0 {
                    res matches Err(AppError::RemotePathIsRoot)
                } else {
                    res matches Ok(ResolvedDestination::Missing { parent_path, name }) && name@
                        == cs.last() && parent_path@ == spec_format_path(cs.drop_last())
                }
            },
            Err(e) => res == Err::<ResolvedDestination, AppError>(e),
        },
{
    match result {
        Ok(resolved) => {
            let ghost path = resolved.path;
            match resolved.target {
                RemoteTarget::Root => {
                    let mut root = String::new();
                    crate::text::push_char(&mut root, '/');
                    Ok(ResolvedDestination::Folder(RemoteFolder { parent: None, path: root }))
                },
                RemoteTarget::Object(o) => {
                    if o.is_folder() {
                        Ok(
                            ResolvedDestination::Folder(
                                RemoteFolder { parent: Some(o.handle), path: resolved.path },
                            ),
                        )
                    } else {
                        let name = o.filename.clone();
                        Ok(
                            ResolvedDestination::Existing(
                                RemoteDestination {
                                    parent: parent_handle(o.parent),
                                    path: resolved.path,
                                    name,
                                    existing: Some(o),
                                },
                            ),
                        )
                    }
                },
            }
        },
        Err(AppError::RemotePathNotFound { .. }) => {
            let mut components = path_components(remote_path)?;
            let n = components.len();
            if n == 0 {
                return Err(AppError::RemotePathIsRoot);
            }
            let ghost cs = crate::remote::strings_view(components@);
            let name = components.pop().unwrap();
            assert(crate::remote::strings_view(components@) =~= cs.drop_last());
            let parent_path = format_path(components.as_slice());
            Ok(ResolvedDestination::Missing { parent_path, name })
        },
        Err(e) => Err(e),
    }
}

/// The destination of a file pushed to a missing path, once the folder before it is
/// resolved: the file goes into that root or folder; a file there is an error.
pub fn missing_destination(parent: ResolvedPath, parent_path: &str, name: String) -> (res: Result<RemoteDestination, AppError>)
    ensures
        match parent.target {
            RemoteTarget::Root => res matches Ok(d) && d.parent.is_none() && d.path@
                == spec_join_remote_path(seq!['/'], name@) && d.name == name && d.existing.is_none(),
            RemoteTarget::Object(o) => if is_folder_object(o) {
                res matches Ok(d) && d.parent == Some(o.handle) && d.path@ == spec_join_remote_path(
                    parent_path@,
                    name@,
                ) && d.name == name && d.existing.is_none()
            } else {
                res matches Err(AppError::RemotePathNotDirectory { path }) && path@ == parent_path@
            },
        },
{
    match parent.target {
        RemoteTarget::Root => {
            let mut root = String::new();
            crate::text::push_char(&mut root, '/');
            assert(root@ =~= seq!['/']);
            let path = join_remote_path(root.as_str(), name.as_str());
            Ok(RemoteDestination { parent: None, path, name, existing: None })
        },
        RemoteTarget::Object(o) => {
            if o.is_folder() {
                let path = join_remote_path(parent_path, name.as_str());
                Ok(RemoteDestination { parent: Some(o.handle), path, name, existing: None })
            } else {
                Err(AppError::RemotePathNotDirectory { path: String::from_str(parent_path) })
            }
        },
    }
}

/// The destination of a temporary object next to `destination`.
pub fn temp_destination(destination: &RemoteDestination, name: String) -> (res: RemoteDestination)
    ensures
        res.parent == destination.parent,
        res.path@ == spec_join_remote_path(spec_parent_path(destination.path@), name@),
        res.name == name,
        res.existing.is_none(),
{
    let parent_path = parent_remote_path(destination.path.as_str());
    let path = join_remote_path(parent_path.as_str(), name.as_str());
    RemoteDestination { parent: destination.parent, path, name, existing: None }
}

/// How many temporary upload names are tried.
pub const TEMP_NAME_ATTEMPTS: u32 = 32;

/// What the temporary-name search does after trying the name of `attempt`.
#[derive(Debug, Clone, Copy, PartialEq, Eq, Structural)]
pub enum TempNameStep {
    /// The name is free: upload under it.
    Use,
    /// Try the name of this attempt next.
    Next(u32),
    /// Every name is taken.
    Exhausted,
}

/// The temporary-name search, attempt by attempt: the first free name is taken; after
/// the last attempt the search gives up.
pub fn next_temp_attempt(attempt: u32, free: bool) -> (res: TempNameStep)
    requires
        attempt < TEMP_NAME_ATTEMPTS,
    ensures
        free ==> res == TempNameStep::Use,
        !free && attempt + 1 < TEMP_NAME_ATTEMPTS ==> res == TempNameStep::Next((attempt + 1) as u32),
        !free && attempt + 1 == TEMP_NAME_ATTEMPTS ==> res == TempNameStep::Exhausted,
{
    if free {
        TempNameStep::Use
    } else if attempt + 1 < TEMP_NAME_ATTEMPTS {
        TempNameStep::Next(attempt + 1)
    } else {
        TempNameStep::Exhausted
    }
}

/// The failure when no free temporary name was found next to `destination`.
pub fn no_temp_name(destination: &RemoteDestination) -> (res: AppError)
    ensures
        res matches AppError::Mtp { message } && message@
            == "could not allocate a temporary upload name under "@ + spec_parent_path(destination.path@),
{
    let parent_path = parent_remote_path(destination.path.as_str());
    let mut message = String::from_str("could not allocate a temporary upload name under ");
    message.append(parent_path.as_str());
    AppError::Mtp { message }
}

/// The failure when a replacement is in place but its backup could not be deleted.
pub fn backup_cleanup_failure(backup_path: &str, error: &str) -> (res: AppError)
    ensures
        res matches AppError::Mtp { message } && message@
            == "replacement uploaded, but cleanup of temporary backup "@ + backup_path@ + " failed: "@
            + error@,
{
    let mut message = String::from_str("replacement uploaded, but cleanup of temporary backup ");
    message.append(backup_path);
    message.append(" failed: ");
    message.append(error);
    AppError::Mtp { message }
}

/// The device operations of a staged replacement, once the new content is on the device
/// under a temporary name.
#[derive(Debug, Clone, Copy, PartialEq, Eq, Structural)]
pub enum ReplaceOp {
    /// Rename the existing object to the backup name.
    MoveExistingAside,
    /// Rename the uploaded temporary object to the final name.
    PromoteUpload,
    /// Delete the existing object, which now carries the backup name.
    DeleteBackup,
    /// Delete the temporary upload, then report the failure.
    DropUpload,
    /// Delete the temporary upload, give the existing object its name back, then report
    /// the failure.
    DropUploadAndRestore,
    /// Report that the new content is in place but the backup could not be deleted.
    ReportBackupLeft,
    /// The replacement is complete.
    Done,
}

/// The first operation after the temporary upload: the existing object is moved aside.
pub fn replacement_first() -> (res: ReplaceOp)
    ensures
        res == ReplaceOp::MoveExistingAside,
{
    ReplaceOp::MoveExistingAside
}

/// The operation that follows `op` once it succeeded or failed. The upload only takes
/// the final name after the existing object was moved aside, and the existing object is
/// only deleted after the upload took its name; a failure before that point removes the
/// upload (and, after the move, restores the existing object's name). The closing
/// operations lead nowhere further.
pub fn replacement_next(op: ReplaceOp, succeeded: bool) -> (res: ReplaceOp)
    ensures
        res == (match op {
            ReplaceOp::MoveExistingAside => if succeeded {
                ReplaceOp::PromoteUpload
            } else {
                ReplaceOp::DropUpload
            },
            ReplaceOp::PromoteUpload => if succeeded {
                ReplaceOp::DeleteBackup
            } else {
                ReplaceOp::DropUploadAndRestore
            },
            ReplaceOp::DeleteBackup => if succeeded {
                ReplaceOp::Done
            } else {
                ReplaceOp::ReportBackupLeft
            },
            other => other,
        }),
{
    match op {
        ReplaceOp::MoveExistingAside => if succeeded {
            ReplaceOp::PromoteUpload
        } else {
            ReplaceOp::DropUpload
        },
        ReplaceOp::PromoteUpload => if succeeded {
            ReplaceOp::DeleteBackup
        } else {
            ReplaceOp::DropUploadAndRestore
        },
        ReplaceOp::DeleteBackup => if succeeded {
            ReplaceOp::Done
        } else {
            ReplaceOp::ReportBackupLeft
        },
        other => other,
    }
}

/// The report entry of one file.
pub fn file_report(local_path: &str, remote_path: &str, size: u64, status: PushStatus) -> (res: PushFileReport)
    ensures
        res.local_path@ == local_path@,
        res.remote_path@ == remote_path@,
        res.size == size,
        res.status == status,
{
    PushFileReport {
        local_path: String::from_str(local_path),
        remote_path: String::from_str(remote_path),
        size,
        status,
    }
}

impl PushReport {
    /// An empty report of a push of `local_path` to `remote_path`.
    pub fn new(local_path: &str, remote_path: &str, dry_run: bool) -> (res: Self)
        ensures
            res.local_path@ == local_path@,
            res.remote_path@ == remote_path@,
            res.dry_run == dry_run,
            res.uploaded == 0,
            res.total_bytes == 0,
            res.files@.len() == 0,
    {
        PushReport {
            local_path: String::from_str(local_path),
            remote_path: String::from_str(remote_path),
            dry_run,
            uploaded: 0,
            total_bytes: 0,
            files: Vec::new(),
        }
    }

    /// Records one file: uploads are counted with their bytes; a dry run only lists it.
    pub fn record(&mut self, file: PushFileReport)
        requires
            old(self).uploaded < usize::MAX,
            old(self).total_bytes + file.size <= u64::MAX,
        ensures
            final(self).files@ == old(self).files@.push(file),
            final(self).local_path == old(self).local_path,
            final(self).remote_path == old(self).remote_path,
            final(self).dry_run == old(self).dry_run,
            final(self).uploaded == old(self).uploaded + (if file.status == PushStatus::Uploaded {
                1int
            } else {
                0
            }),
            final(self).total_bytes == old(self).total_bytes + (if file.status
                == PushStatus::Uploaded {
                file.size as int
            } else {
                0
            }),
    {
        if file.status == PushStatus::Uploaded {
            self.uploaded = self.uploaded + 1;
            self.total_bytes = self.total_bytes + file.size;
        }
        self.files.push(file);
    }
}

/// The status a pushed file gets: a dry run uploads nothing.
pub fn push_status(dry_run: bool) -> (res: PushStatus)
    ensures
        res == (if dry_run {
            PushStatus::DryRun
        } else {
            PushStatus::Uploaded
        }),
{
    if dry_run {
        PushStatus::DryRun
    } else {
        PushStatus::Uploaded
    }
}

// ---------------------------------------------------------------------------
// Planning a folder upload
// ---------------------------------------------------------------------------

/// Local paths order as their strings do.
impl SortOrder for String {
    open spec fn spec_le(&self, other: &Self) -> bool {
        lex_le(self@, other@)
    }

    proof fn lemma_total(a: &Self, b: &Self) {
        lemma_lex_trichotomy(a@, b@);
    }

    proof fn lemma_trans(a: &Self, b: &Self, c: &Self) {
        if lex_lt(a@, b@) && lex_lt(b@, c@) {
            lemma_lex_transitive(a@, b@, c@);
        }
    }

    fn le(&self, other: &Self) -> (res: bool) {
        let a = chars_of(self.as_str());
        let b = chars_of(other.as_str());
        proof {
            lemma_lex_trichotomy(self@, other@);
        }
        !lex_lt_exec(b.as_slice(), a.as_slice())
    }
}

/// Sorts the entries of a local folder by their paths.
pub fn sort_paths(entries: &mut Vec<String>)
    ensures
        final(entries)@.to_multiset() == old(entries)@.to_multiset(),
        sorted_by_order(final(entries)@),
{
    sort_stable(entries);
}

/// A local folder still to plan, with the remote folder it goes into.
pub struct PendingDirectory {
    pub local_dir: String,
    pub remote_parent: Option<u32>,
    pub remote_parent_path: String,
}

/// The plan of a folder upload under way: the folders still to visit (the last one
/// next) and the files planned so far.
pub struct DirectoryPlan {
    pub stack: Vec<PendingDirectory>,
    pub plan: Vec<PushPlanItem>,
    pub overwrite: bool,
}

/// The abstract form of a pending folder.
pub open spec fn pending_view(d: PendingDirectory) -> (Seq<char>, Option<u32>, Seq<char>) {
    (d.local_dir@, d.remote_parent, d.remote_parent_path@)
}

/// The abstract stack of a plan.
pub open spec fn plan_stack(p: DirectoryPlan) -> Seq<(Seq<char>, Option<u32>, Seq<char>)> {
    p.stack@.map_values(|d: PendingDirectory| pending_view(d))
}

/// The message when a local folder has no counterpart on the device.
pub open spec fn missing_folder_message(remote_child_path: Seq<char>) -> Seq<char> {
    "remote folder creation is not available; create "@ + remote_child_path
        + " before pushing this directory"@
}

impl DirectoryPlan {
    /// The plan of uploading the local folder `local_root` into the remote folder
    /// `remote_parent` at `remote_parent_path`.
    pub fn new(local_root: &str, remote_parent: Option<u32>, remote_parent_path: &str, overwrite: bool) -> (res: Self)
        ensures
            plan_stack(res) == seq![(local_root@, remote_parent, remote_parent_path@)],
            res.plan@.len() == 0,
            res.overwrite == overwrite,
    {
        let mut stack: Vec<PendingDirectory> = Vec::new();
        stack.push(
            PendingDirectory {
                local_dir: String::from_str(local_root),
                remote_parent,
                remote_parent_path: String::from_str(remote_parent_path),
            },
        );
        let res = DirectoryPlan { stack, plan: Vec::new(), overwrite };
        assert(plan_stack(res) =~= seq![(local_root@, remote_parent, remote_parent_path@)]);
        res
    }

    /// The next folder to plan, taken off the stack.
    pub fn next_directory(&mut self) -> (res: Option<PendingDirectory>)
        ensures
            final(self).plan == old(self).plan,
            final(self).overwrite == old(self).overwrite,
            plan_stack(*old(self)).len() == 0 ==> res.is_none() && plan_stack(*final(self)).len()
                == 0,
            plan_stack(*old(self)).len() > 0 ==> (res matches Some(d) && pending_view(d)
                == plan_stack(*old(self)).last() && plan_stack(*final(self)) == plan_stack(
                *old(self),
            ).drop_last()),
    {
        let ghost before = plan_stack(*self);
        let r = self.stack.pop();
        assert(plan_stack(*self) =~= if before.len() > 0 {
            before.drop_last()
        } else {
            before
        });
        r
    }

    /// Plans a local subfolder `entry` named `name` of `dir`: the device must already
    /// have a folder of that name there (`remote_child`), which is then visited.
    pub fn add_folder(&mut self, dir: &PendingDirectory, entry: String, name: &str, remote_child: Option<ObjectInfo>) -> (res: Result<(), AppError>)
        ensures
            final(self).plan == old(self).plan,
            final(self).overwrite == old(self).overwrite,
            ({
                let path = spec_join_remote_path(dir.remote_parent_path@, name@);
                match remote_child {
                    None => res matches Err(AppError::MtpUnsupported { message }) && message@
                        == missing_folder_message(path) && plan_stack(*final(self)) == plan_stack(
                        *old(self),
                    ),
                    Some(c) => if is_folder_object(c) {
                        res is Ok && plan_stack(*final(self)) == plan_stack(*old(self)).push(
                            (entry@, Some(c.handle), path),
                        )
                    } else {
                        res matches Err(AppError::RemotePathNotDirectory { path: p }) && p@ == path
                            && plan_stack(*final(self)) == plan_stack(*old(self))
                    },
                }
            }),
    {
        let remote_child_path = join_remote_path(dir.remote_parent_path.as_str(), name);
        match remote_child {
            None => {
                let mut message = String::from_str("remote folder creation is not available; create ");
                message.append(remote_child_path.as_str());
                message.append(" before pushing this directory");
                Err(AppError::MtpUnsupported { message })
            },
            Some(child) => {
                if !child.is_folder() {
                    return Err(AppError::RemotePathNotDirectory { path: remote_child_path });
                }
                let ghost before = plan_stack(*self);
                self.stack.push(
                    PendingDirectory {
                        local_dir: entry,
                        remote_parent: Some(child.handle),
                        remote_parent_path: remote_child_path,
                    },
                );
                assert(plan_stack(*self) =~= before.push(
                    (entry@, Some(child.handle), spec_join_remote_path(dir.remote_parent_path@, name@)),
                ));
                Ok(())
            },
        }
    }

    /// Plans a local file `entry` named `name` of `dir`, of `size` bytes, replacing
    /// `existing` when the device has an object of that name there.
    pub fn add_file(&mut self, dir: &PendingDirectory, entry: String, name: String, existing: Option<ObjectInfo>, size: u64) -> (res: Result<(), AppError>)
        ensures
            final(self).stack == old(self).stack,
            final(self).overwrite == old(self).overwrite,
            ({
                let path = spec_join_remote_path(dir.remote_parent_path@, name@);
                match existing {
                    Some(e) if is_folder_object(e) => res matches Err(
                        AppError::RemotePathIsFolder { path: p },
                    ) && p@ == path && final(self).plan == old(self).plan,
                    Some(e) if !old(self).overwrite => res matches Err(
                        AppError::RemotePathExists { path: p },
                    ) && p@ == path && final(self).plan == old(self).plan,
                    _ => {
                        &&& res is Ok
                        &&& final(self).plan@.len() == old(self).plan@.len() + 1
                        &&& final(self).plan@.drop_last() == old(self).plan@
                        &&& final(self).plan@.last().local_path == entry
                        &&& final(self).plan@.last().size == size
                        &&& final(self).plan@.last().destination.parent == dir.remote_parent
                        &&& final(self).plan@.last().destination.path@ == path
                        &&& final(self).plan@.last().destination.name == name
                        &&& final(self).plan@.last().destination.existing == existing
                    },
                }
            }),
    {
        let path = join_remote_path(dir.remote_parent_path.as_str(), name.as_str());
        let destination = RemoteDestination { parent: dir.remote_parent, path, name, existing };
        validate_destination_for_write(&destination, self.overwrite)?;
        let ghost before = self.plan@;
        self.plan.push(PushPlanItem { local_path: entry, destination, size });
        assert(self.plan@.drop_last() =~= before);
        Ok(())
    }
}

} // verus!

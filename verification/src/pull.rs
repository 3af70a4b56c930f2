//! `tp7 pull`: where downloaded files go, which of them are skipped, the walk through a
//! remote folder, and the report of what was transferred.
use vstd::prelude::*;

use crate::error::AppError;
use crate::local_path::{
    file_name_of, join_path, joined_path, path_file_name, path_with_file_name, with_file_name,
};
use crate::mtp::{ObjectInfo, is_folder_object};
use crate::remote::{RemoteTarget, join_remote_path, spec_join_remote_path};
use crate::text::{
    chars_of, contains_seq, find_char, first_index_of, lemma_index_found, push_decimal, spec_decimal,
};

verus! {

/// The report of `tp7 pull`.
#[derive(Debug, Clone)]
pub struct PullReport {
    pub remote_path: String,
    pub local_path: String,
    pub dry_run: bool,
    pub downloaded: usize,
    pub skipped: usize,
    pub total_bytes: u64,
    pub files: Vec<PullFileReport>,
}

/// One file of a pull.
#[derive(Debug, Clone, PartialEq, Eq)]
pub struct PullFileReport {
    pub remote_path: String,
    pub local_path: String,
    pub size: u64,
    pub status: PullStatus,
}

/// What happened to one file of a pull.
#[derive(Debug, Clone, Copy, PartialEq, Eq, Structural)]
pub enum PullStatus {
    Downloaded,
    DryRun,
    Skipped,
}

/// The options of `tp7 pull`.
#[derive(Debug, Clone, Copy)]
pub struct PullOptions {
    pub recursive: bool,
    pub overwrite: bool,
    pub skip_existing: bool,
    pub dry_run: bool,
    pub progress: bool,
}

/// `--overwrite` and `--skip-existing` exclude each other.
pub fn validate_options(options: PullOptions) -> (res: Result<(), AppError>)
    ensures
        options.overwrite && options.skip_existing ==> (res matches Err(
            AppError::InvalidArguments { message },
        ) && message@ == "--overwrite and --skip-existing cannot be used together"@),
        !(options.overwrite && options.skip_existing) ==> res is Ok,
{
    if options.overwrite && options.skip_existing {
        return Err(
            AppError::InvalidArguments {
                message: String::from_str("--overwrite and --skip-existing cannot be used together"),
            },
        );
    }
    Ok(())
}

/// Whether a remote object name can become a local file name: not `.`, not `..`, no `/`.
pub open spec fn is_safe_name(name: Seq<char>) -> bool {
    name != "."@ && name != ".."@ && first_index_of(name, '/') < 0
}

/// A remote name that could leave the local folder is refused: `.`, `..` and any name
/// with a `/` never become a local path, and every other name does.
pub proof fn lemma_safe_names(name: Seq<char>)
    ensures
        !is_safe_name(name) <==> (name == "."@ || name == ".."@ || name.contains('/')),
{
    lemma_index_found(name, '/');
}

/// The local path of a remote object `name` inside the local folder `parent`.
pub fn safe_child_path(parent: &str, name: &str) -> (res: Result<String, AppError>)
    ensures
        is_safe_name(name@) ==> (res matches Ok(p) && p@ == joined_path(parent@, name@)),
        !is_safe_name(name@) ==> (res matches Err(AppError::InvalidRemotePath { path, message })
            && path@ == name@ && message@ == "remote object names cannot contain path separators"@),
        res is Err <==> (name@ == "."@ || name@ == ".."@ || name@.contains('/')),
{
    proof {
        lemma_safe_names(name@);
    }
    let n = chars_of(name);
    let unsafe_name = crate::text::chars_are(n.as_slice(), ".") || crate::text::chars_are(
        n.as_slice(),
        "..",
    ) || find_char(n.as_slice(), '/').is_some();
    if unsafe_name {
        return Err(
            AppError::InvalidRemotePath {
                path: String::from_str(name),
                message: String::from_str("remote object names cannot contain path separators"),
            },
        );
    }
    Ok(join_path(parent, name))
}

/// Whether a local path is written as a folder: it ends with `/`.
pub open spec fn looks_like_directory(path: Seq<char>) -> bool {
    path.len() > 0 && path.last() == '/'
}

/// Whether a local path is written as a folder.
pub fn local_path_looks_like_directory(path: &str) -> (res: bool)
    ensures
        res == looks_like_directory(path@),
{
    let c = chars_of(path);
    c.len() > 0 && c[c.len() - 1] == '/'
}

/// Where a downloaded file goes: its remote name in the current folder when no local
/// path is given; inside the local path when that is a folder (or written as one);
/// the local path itself otherwise. `local_is_dir` tells whether the local path is an
/// existing folder.
pub fn file_destination(local_path: Option<&str>, local_is_dir: bool, remote_name: &str) -> (res: Result<String, AppError>)
    ensures
        match local_path {
            None => res matches Ok(p) && p@ == remote_name@,
            Some(l) => if local_is_dir || looks_like_directory(l@) {
                if is_safe_name(remote_name@) {
                    res matches Ok(p) && p@ == joined_path(l@, remote_name@)
                } else {
                    res matches Err(AppError::InvalidRemotePath { path, message }) && path@ == remote_name@
                        && message@ == "remote object names cannot contain path separators"@
                }
            } else {
                res matches Ok(p) && p@ == l@
            },
        },
{
    let local_path = match local_path {
        Some(l) => l,
        None => {
            return Ok(String::from_str(remote_name));
        },
    };
    if local_is_dir || local_path_looks_like_directory(local_path) {
        return safe_child_path(local_path, remote_name);
    }
    Ok(String::from_str(local_path))
}

/// Where a downloaded folder goes: the local path, which must not be an existing file,
/// or the folder's remote name in the current folder.
pub fn folder_destination(local_path: Option<&str>, local_exists: bool, local_is_dir: bool, remote_name: &str) -> (res: Result<String, AppError>)
    ensures
        match local_path {
            None => res matches Ok(p) && p@ == remote_name@,
            Some(l) => if local_exists && !local_is_dir {
                res matches Err(AppError::LocalPathIsFile { path }) && path@ == l@
            } else {
                res matches Ok(p) && p@ == l@
            },
        },
{
    match local_path {
        Some(l) => {
            if local_exists && !local_is_dir {
                return Err(AppError::LocalPathIsFile { path: String::from_str(l) });
            }
            Ok(String::from_str(l))
        },
        None => Ok(String::from_str(remote_name)),
    }
}

/// The steps of one download, which goes to a temporary file first.
#[derive(Debug, Clone, Copy, PartialEq, Eq, Structural)]
pub enum DownloadOp {
    /// Write the object's content to the temporary file.
    Download,
    /// Give the temporary file the final name.
    Rename,
    /// Check the final file's size against the object's.
    VerifySize,
    /// Remove the temporary file, then report the failure.
    RemoveTemp,
    /// Remove the final file, whose size is wrong, then report the failure.
    RemoveFinal,
    /// The file is in place.
    Done,
}

/// The first step of a download: the content goes to the temporary file.
pub fn download_first() -> (res: DownloadOp)
    ensures
        res == DownloadOp::Download,
{
    DownloadOp::Download
}

/// The step that follows `op` once it succeeded or failed. A failed download or rename
/// removes the temporary file; a size mismatch removes the final file. The closing
/// steps lead nowhere further.
pub fn download_next(op: DownloadOp, succeeded: bool) -> (res: DownloadOp)
    ensures
        res == (match op {
            DownloadOp::Download => if succeeded {
                DownloadOp::Rename
            } else {
                DownloadOp::RemoveTemp
            },
            DownloadOp::Rename => if succeeded {
                DownloadOp::VerifySize
            } else {
                DownloadOp::RemoveTemp
            },
            DownloadOp::VerifySize => if succeeded {
                DownloadOp::Done
            } else {
                DownloadOp::RemoveFinal
            },
            other => other,
        }),
{
    match op {
        DownloadOp::Download => if succeeded {
            DownloadOp::Rename
        } else {
            DownloadOp::RemoveTemp
        },
        DownloadOp::Rename => if succeeded {
            DownloadOp::VerifySize
        } else {
            DownloadOp::RemoveTemp
        },
        DownloadOp::VerifySize => if succeeded {
            DownloadOp::Done
        } else {
            DownloadOp::RemoveFinal
        },
        other => other,
    }
}

/// The hidden file a download is written to before it takes its final name:
/// `.NAME.tp7tmp` next to the destination.
pub fn temp_download_path(local_path: &str) -> (res: Result<String, AppError>)
    ensures
        match path_file_name(local_path@) {
            Some(name) => res matches Ok(p) && p@ == path_with_file_name(
                local_path@,
                "."@ + name + ".tp7tmp"@,
            ),
            None => res matches Err(AppError::InvalidArguments { message }) && message@
                == "local path must include a file name"@,
        },
{
    let name = match file_name_of(local_path) {
        Some(n) => n,
        None => {
            return Err(
                AppError::InvalidArguments {
                    message: String::from_str("local path must include a file name"),
                },
            );
        },
    };
    let mut temp_name = String::from_str(".");
    temp_name.append(name.as_str());
    temp_name.append(".tp7tmp");
    Ok(with_file_name(local_path, temp_name.as_str()))
}

/// What to do with one file's destination: an existing folder is an error; an existing
/// file is skipped with `--skip-existing`, replaced with `--overwrite`, an error
/// otherwise; a dry run downloads nothing.
pub open spec fn spec_file_status(exists: bool, is_dir: bool, options: PullOptions) -> Option<PullStatus> {
    if exists && is_dir {
        None
    } else if exists && options.skip_existing {
        Some(PullStatus::Skipped)
    } else if exists && !options.overwrite {
        None
    } else if options.dry_run {
        Some(PullStatus::DryRun)
    } else {
        Some(PullStatus::Downloaded)
    }
}

/// A dry run writes nothing locally: no file is downloaded and no folder is created for
/// it, whatever the destination holds.
pub proof fn lemma_dry_run_writes_nothing(local_path: Seq<char>, exists: bool, is_dir: bool, options: PullOptions)
    requires
        options.dry_run,
    ensures
        spec_file_status(exists, is_dir, options) != Some(PullStatus::Downloaded),
        crate::local_path::spec_parent_to_create(local_path, options.dry_run).is_none(),
{
}

/// Decides what to do with one file's destination `local_path`, which exists or not
/// and is a folder or not.
pub fn prepare_file_destination(local_path: &str, present: bool, is_dir: bool, options: PullOptions) -> (res: Result<PullStatus, AppError>)
    ensures
        match spec_file_status(present, is_dir, options) {
            Some(s) => res == Ok::<PullStatus, AppError>(s),
            None => if is_dir {
                res matches Err(AppError::LocalPathIsDirectory { path }) && path@ == local_path@
            } else {
                res matches Err(AppError::LocalPathExists { path }) && path@ == local_path@
            },
        },
        present && is_dir ==> res is Err,
        present && !is_dir && options.skip_existing ==> res == Ok::<PullStatus, AppError>(
            PullStatus::Skipped,
        ),
        present && !options.skip_existing && !options.overwrite ==> res is Err,
        !present && options.dry_run ==> res == Ok::<PullStatus, AppError>(PullStatus::DryRun),
        !present && !options.dry_run ==> res == Ok::<PullStatus, AppError>(PullStatus::Downloaded),
        res == Ok::<PullStatus, AppError>(PullStatus::Downloaded) ==> !options.dry_run && (!present
            || (!is_dir && options.overwrite && !options.skip_existing)),
{
    if present {
        if is_dir {
            return Err(AppError::LocalPathIsDirectory { path: String::from_str(local_path) });
        }
        if options.skip_existing {
            return Ok(PullStatus::Skipped);
        }
        if !options.overwrite {
            return Err(AppError::LocalPathExists { path: String::from_str(local_path) });
        }
    }
    if options.dry_run {
        Ok(PullStatus::DryRun)
    } else {
        Ok(PullStatus::Downloaded)
    }
}

/// A downloaded file must have the size the device announced.
pub fn verify_file_size(path: &str, expected_size: u64, actual_size: u64) -> (res: Result<(), AppError>)
    ensures
        expected_size == actual_size ==> res is Ok,
        expected_size != actual_size ==> (res matches Err(
            AppError::TransferVerification { path: p, expected_size: e, actual_size: a },
        ) && p@ == path@ && e == expected_size && a == actual_size),
{
    if actual_size != expected_size {
        return Err(
            AppError::TransferVerification {
                path: String::from_str(path),
                expected_size,
                actual_size,
            },
        );
    }
    Ok(())
}

/// The report entry of one file.
pub fn file_report(remote_path: &str, local_path: &str, size: u64, status: PullStatus) -> (res: PullFileReport)
    ensures
        res.remote_path@ == remote_path@,
        res.local_path@ == local_path@,
        res.size == size,
        res.status == status,
{
    PullFileReport {
        remote_path: String::from_str(remote_path),
        local_path: String::from_str(local_path),
        size,
        status,
    }
}

impl PullReport {
    /// An empty report of a pull of `remote_path`.
    pub fn new(remote_path: String, dry_run: bool) -> (res: Self)
        ensures
            res.remote_path == remote_path,
            res.local_path@.len() == 0,
            res.dry_run == dry_run,
            res.downloaded == 0,
            res.skipped == 0,
            res.total_bytes == 0,
            res.files@.len() == 0,
    {
        PullReport {
            remote_path,
            local_path: String::new(),
            dry_run,
            downloaded: 0,
            skipped: 0,
            total_bytes: 0,
            files: Vec::new(),
        }
    }

    /// Records one file: skipped files and downloads are counted, downloads with their
    /// bytes; a dry run only lists the file.
    pub fn record(&mut self, file: PullFileReport)
        requires
            old(self).downloaded < usize::MAX,
            old(self).skipped < usize::MAX,
            old(self).total_bytes + file.size <= u64::MAX,
        ensures
            final(self).files@ == old(self).files@.push(file),
            final(self).remote_path == old(self).remote_path,
            final(self).local_path == old(self).local_path,
            final(self).dry_run == old(self).dry_run,
            final(self).downloaded == old(self).downloaded + (if file.status == PullStatus::Downloaded {
                1int
            } else {
                0
            }),
            final(self).skipped == old(self).skipped + (if file.status == PullStatus::Skipped {
                1int
            } else {
                0
            }),
            final(self).total_bytes == old(self).total_bytes + (if file.status
                == PullStatus::Downloaded {
                file.size as int
            } else {
                0
            }),
    {
        match file.status {
            PullStatus::Skipped => {
                self.skipped = self.skipped + 1;
            },
            PullStatus::DryRun => {},
            PullStatus::Downloaded => {
                self.downloaded = self.downloaded + 1;
                self.total_bytes = self.total_bytes + file.size;
            },
        }
        self.files.push(file);
    }
}

/// What a pull transfers.
pub enum PullTarget {
    /// A folder, pulled recursively.
    Folder(ObjectInfo),
    /// One file.
    File(ObjectInfo),
}

/// What a pull of the resolved path transfers: never the storage root; a folder only
/// with `--recursive`.
pub fn pull_target(target: RemoteTarget, resolved_path: &str, recursive: bool) -> (res: Result<PullTarget, AppError>)
    ensures
        match target {
            RemoteTarget::Root => res matches Err(AppError::RemotePathIsRoot),
            RemoteTarget::Object(o) => if is_folder_object(o) {
                if recursive {
                    res matches Ok(PullTarget::Folder(f)) && f == o
                } else {
                    res matches Err(AppError::RemotePathIsFolder { path }) && path@ == resolved_path@
                }
            } else {
                res matches Ok(PullTarget::File(f)) && f == o
            },
        },
{
    match target {
        RemoteTarget::Root => Err(AppError::RemotePathIsRoot),
        RemoteTarget::Object(object) => {
            if object.is_folder() {
                if !recursive {
                    return Err(AppError::RemotePathIsFolder { path: String::from_str(resolved_path) });
                }
                Ok(PullTarget::Folder(object))
            } else {
                Ok(PullTarget::File(object))
            }
        },
    }
}

/// An object still to visit in a folder pull, with the remote and local folders it is
/// in.
pub struct PendingObject {
    pub object: ObjectInfo,
    pub remote_parent: String,
    pub local_parent: String,
}

/// The next object of a folder pull, with its remote and local paths.
pub struct WalkItem {
    pub object: ObjectInfo,
    pub remote_path: String,
    pub local_path: String,
}

/// The depth-first walk through a remote folder: a stack whose top is the next object.
pub struct FolderWalk {
    pub stack: Vec<PendingObject>,
}

/// The pending objects for `children`, the first child on top.
pub open spec fn pending_children(children: Seq<ObjectInfo>, remote_parent: Seq<char>, local_parent: Seq<char>) -> Seq<(ObjectInfo, Seq<char>, Seq<char>)> {
    Seq::new(children.len(), |i: int| (children[children.len() - 1 - i], remote_parent, local_parent))
}

/// The abstract stack of a walk.
pub open spec fn walk_view(w: FolderWalk) -> Seq<(ObjectInfo, Seq<char>, Seq<char>)> {
    w.stack@.map_values(|p: PendingObject| (p.object, p.remote_parent@, p.local_parent@))
}

impl FolderWalk {
    /// A walk with nothing pending.
    pub fn new() -> (res: Self)
        ensures
            walk_view(res).len() == 0,
    {
        FolderWalk { stack: Vec::new() }
    }

    /// Adds the children of a folder, so that they are visited next, in listing order.
    pub fn push_children(&mut self, children: Vec<ObjectInfo>, remote_parent: &str, local_parent: &str)
        ensures
            walk_view(*final(self)) == walk_view(*old(self)) + pending_children(
                children@,
                remote_parent@,
                local_parent@,
            ),
    {
        let ghost start = walk_view(*self);
        let ghost all = children@;
        let mut rest = children;
        let n = rest.len();
        let mut k: usize = 0;
        while k < n
            invariant
                n == all.len(),
                k <= n,
                rest@ == all.take(n - k),
                walk_view(*self) == start + pending_children(all, remote_parent@, local_parent@).take(
                    k as int,
                ),
            decreases n - k,
        {
            let object = rest.pop().unwrap();
            assert(object == all[n - 1 - k]);
            assert(rest@ =~= all.take(n - k - 1));
            let ghost before = walk_view(*self);
            self.stack.push(
                PendingObject {
                    object,
                    remote_parent: String::from_str(remote_parent),
                    local_parent: String::from_str(local_parent),
                },
            );
            assert(walk_view(*self) =~= before.push((object, remote_parent@, local_parent@)));
            assert(pending_children(all, remote_parent@, local_parent@).take(k + 1)
                =~= pending_children(all, remote_parent@, local_parent@).take(k as int).push(
                (object, remote_parent@, local_parent@),
            ));
            k += 1;
        }
        assert(pending_children(all, remote_parent@, local_parent@).take(n as int)
            =~= pending_children(all, remote_parent@, local_parent@));
    }

    /// Takes the next object: its remote path joins its remote folder and name, its
    /// local path is its name inside its local folder (an unsafe name is an error).
    pub fn next(&mut self) -> (res: Option<Result<WalkItem, AppError>>)
        ensures
            walk_view(*old(self)).len() == 0 ==> res.is_none() && walk_view(*final(self)).len()
                == 0,
            walk_view(*old(self)).len() > 0 ==> {
                let top = walk_view(*old(self)).last();
                &&& walk_view(*final(self)) == walk_view(*old(self)).drop_last()
                &&& res matches Some(r) && if is_safe_name(top.0.filename@) {
                    r matches Ok(item) && item.object == top.0 && item.remote_path@
                        == spec_join_remote_path(top.1, top.0.filename@) && item.local_path@
                        == joined_path(top.2, top.0.filename@)
                } else {
                    r matches Err(AppError::InvalidRemotePath { path, message }) && path@ == top.0.filename@
                        && message@ == "remote object names cannot contain path separators"@
                }
            },
    {
        let ghost before = walk_view(*self);
        match self.stack.pop() {
            None => None,
            Some(pending) => {
                assert(walk_view(*self) =~= before.drop_last());
                let remote_path = join_remote_path(
                    pending.remote_parent.as_str(),
                    pending.object.filename.as_str(),
                );
                match safe_child_path(pending.local_parent.as_str(), pending.object.filename.as_str()) {
                    Ok(local_path) => Some(
                        Ok(WalkItem { object: pending.object, remote_path, local_path }),
                    ),
                    Err(e) => Some(Err(e)),
                }
            },
        }
    }
}

} // verus!

//! Local file system paths, as `std::path` composes and splits them.
use vstd::prelude::*;

verus! {

/// What `Path::join` makes of `base` and `name`.
pub uninterp spec fn joined_path(base: Seq<char>, name: Seq<char>) -> Seq<char>;

/// What `Path::file_name` gives for a path: its last component, unless it ends in `..`
/// or has none.
pub uninterp spec fn path_file_name(path: Seq<char>) -> Option<Seq<char>>;

/// What `Path::with_file_name` makes of `path` with the last component `name`.
pub uninterp spec fn path_with_file_name(path: Seq<char>, name: Seq<char>) -> Seq<char>;

/// What `Path::parent` gives for a path: all but its last component, if it has one.
pub uninterp spec fn path_parent(path: Seq<char>) -> Option<Seq<char>>;

/// What `Path::extension` gives for a path: what follows the last `.` of its file name,
/// if there is one.
pub uninterp spec fn path_extension(path: Seq<char>) -> Option<Seq<char>>;

/// The extension of a path. Trusted wrapper of `std::path::Path::extension`: the
/// contract claims only that the result is `path_extension` of the path (`None` when
/// there is no extension); what that is for a given path is left unsaid.
#[verifier::external_body]
pub(crate) fn extension_of(path: &str) -> (res: Option<String>)
    ensures
        match res {
            Some(e) => path_extension(path@) == Some(e@),
            None => path_extension(path@).is_none(),
        },
{
    std::path::Path::new(path).extension().map(|ext| ext.to_string_lossy().into_owned())
}

/// `base` joined with `name`. Trusted wrapper of `std::path::Path::join`: the contract
/// claims only that the result is `joined_path` of the two, the same for the same inputs.
#[verifier::external_body]
pub(crate) fn join_path(base: &str, name: &str) -> (res: String)
    ensures
        res@ == joined_path(base@, name@),
{
    std::path::Path::new(base).join(name).to_string_lossy().into_owned()
}

/// The last component of a path. Trusted wrapper of `std::path::Path::file_name`: the
/// contract claims only that the result is `path_file_name` of the path.
#[verifier::external_body]
pub(crate) fn file_name_of(path: &str) -> (res: Option<String>)
    ensures
        match res {
            Some(n) => path_file_name(path@) == Some(n@),
            None => path_file_name(path@).is_none(),
        },
{
    std::path::Path::new(path).file_name().map(|name| name.to_string_lossy().into_owned())
}

/// A path with its last component replaced by `name`. Trusted wrapper of
/// `std::path::Path::with_file_name`: the contract claims only that the result is
/// `path_with_file_name` of the two.
#[verifier::external_body]
pub(crate) fn with_file_name(path: &str, name: &str) -> (res: String)
    ensures
        res@ == path_with_file_name(path@, name@),
{
    std::path::Path::new(path).with_file_name(name).to_string_lossy().into_owned()
}

/// The parent of a path. Trusted wrapper of `std::path::Path::parent`: the contract
/// claims only that the result is `path_parent` of the path.
#[verifier::external_body]
pub(crate) fn parent_of(path: &str) -> (res: Option<String>)
    ensures
        match res {
            Some(p) => path_parent(path@) == Some(p@),
            None => path_parent(path@).is_none(),
        },
{
    std::path::Path::new(path).parent().map(|parent| parent.to_string_lossy().into_owned())
}

/// The folder to create before writing a file at `path`: its parent, unless that is
/// empty (the current folder) or nothing is to be written.
pub open spec fn spec_parent_to_create(path: Seq<char>, dry_run: bool) -> Option<Seq<char>> {
    match path_parent(path) {
        Some(p) => if p.len() > 0 && !dry_run {
            Some(p)
        } else {
            None
        },
        None => None,
    }
}

/// The folder to create before writing a file at `path`, if any.
pub fn parent_to_create(path: &str, dry_run: bool) -> (res: Option<String>)
    ensures
        match res {
            Some(p) => spec_parent_to_create(path@, dry_run) == Some(p@),
            None => spec_parent_to_create(path@, dry_run).is_none(),
        },
{
    match parent_of(path) {
        Some(p) => if !p.as_str().is_empty() && !dry_run {
            Some(p)
        } else {
            None
        },
        None => None,
    }
}

} // verus!

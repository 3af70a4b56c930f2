//! Remote paths on the TP-7 storage: normalisation, joining, resolution through
//! folder listings, and the order in which listings are shown.
use vstd::prelude::*;

use crate::error::AppError;
use crate::mtp::{DateTime, ObjectInfo, is_folder_object, spec_datetime_format};
use crate::order::{
    SortOrder, equivalents, lex_le, lex_lt, lex_lt_exec, lemma_lex_transitive, lemma_lex_trichotomy,
    sort_stable, sorted_by_order,
};
use crate::text::{
    chars_eq, chars_of, contains_seq, lowercase, nonempty_parts, push_char, push_chars,
    spec_rsplit_once, spec_trim, split_chars, split_on, string_of, to_lowercase, trim_chars,
    trim_end_char, trim_end_char_chars, rsplit_once_chars,
};

verus! {

/// A remote object as the commands report it.
#[derive(Debug, PartialEq, Eq)]
pub struct RemoteObject {
    pub id: u32,
    pub parent_id: u32,
    pub storage_id: u32,
    pub kind: ObjectKind,
    pub name: String,
    pub size: u64,
    pub modified: Option<String>,
}

/// Files and folders.
#[derive(Debug, Clone, Copy, PartialEq, Eq, Structural)]
pub enum ObjectKind {
    File,
    Folder,
}

/// A remote path together with what it names.
pub struct ResolvedPath {
    pub path: String,
    pub target: RemoteTarget,
}

/// The storage root, or an object on the storage.
pub enum RemoteTarget {
    Root,
    Object(ObjectInfo),
}

/// The view of an optional string.
pub open spec fn opt_str(o: Option<String>) -> Option<Seq<char>> {
    match o {
        Some(s) => Some(s@),
        None => None,
    }
}

/// The view of an optional date's MTP string form.
pub open spec fn opt_datetime_format(o: Option<DateTime>) -> Option<Seq<char>> {
    match o {
        Some(d) => spec_datetime_format(d),
        None => None,
    }
}

/// The kind of an object.
pub open spec fn object_kind(o: ObjectInfo) -> ObjectKind {
    if is_folder_object(o) {
        ObjectKind::Folder
    } else {
        ObjectKind::File
    }
}

/// The report entry for an object.
pub open spec fn remote_object_matches(r: RemoteObject, o: ObjectInfo) -> bool {
    &&& r.id == o.handle
    &&& r.parent_id == o.parent
    &&& r.storage_id == o.storage_id
    &&& r.kind == object_kind(o)
    &&& r.name@ == o.filename@
    &&& r.size == o.size
    &&& opt_str(r.modified) == opt_datetime_format(o.modified)
}

/// The MTP string form of an optional timestamp.
pub fn format_opt_datetime(o: Option<DateTime>) -> (res: Option<String>)
    ensures
        opt_str(res) == opt_datetime_format(o),
{
    match o {
        Some(d) => d.format(),
        None => None,
    }
}

impl ObjectInfo {
    /// A copy of this object's metadata.
    pub fn duplicate(&self) -> (res: ObjectInfo)
        ensures
            res == *self,
    {
        ObjectInfo {
            handle: self.handle,
            storage_id: self.storage_id,
            format: self.format,
            association_type: self.association_type,
            parent: self.parent,
            filename: self.filename.clone(),
            size: self.size,
            created: self.created,
            modified: self.modified,
        }
    }
}

impl RemoteObject {
    /// The report entry for an object: its handle, parent, storage, kind, name, size and
    /// modification time in MTP string form.
    pub fn from_object(object: ObjectInfo) -> (res: Self)
        ensures
            remote_object_matches(res, object),
    {
        let kind = if object.is_folder() {
            ObjectKind::Folder
        } else {
            ObjectKind::File
        };
        let modified = format_opt_datetime(object.modified);
        RemoteObject {
            id: object.handle,
            parent_id: object.parent,
            storage_id: object.storage_id,
            kind,
            name: object.filename,
            size: object.size,
            modified,
        }
    }
}

// ---------------------------------------------------------------------------
// Path syntax
// ---------------------------------------------------------------------------

/// The components of a remote path: the non-empty pieces between slashes of the
/// trimmed path.
pub open spec fn spec_components(path: Seq<char>) -> Seq<Seq<char>> {
    nonempty_parts(split_on(spec_trim(path), '/'))
}

/// Whether a component is `.` or `..`.
pub open spec fn is_dot_component(c: Seq<char>) -> bool {
    c == seq!['.'] || c == seq!['.', '.']
}

/// Whether any component is `.` or `..`.
pub open spec fn has_dot_component(cs: Seq<Seq<char>>) -> bool {
    exists|i: int| 0 <= i < cs.len() && #[trigger] is_dot_component(cs[i])
}

/// The views of a list of strings.
pub open spec fn strings_view(v: Seq<String>) -> Seq<Seq<char>> {
    v.map_values(|s: String| s@)
}

/// Whether `e` is the error reported for a path with `.` or `..` components.
pub open spec fn is_dot_component_error(e: AppError, path: Seq<char>) -> bool {
    e is InvalidRemotePath && e->InvalidRemotePath_path@ == path && e->InvalidRemotePath_message@
        == "remote paths cannot contain . or .. components"@
}

/// Components joined with a leading slash before each.
pub open spec fn slash_joined(cs: Seq<Seq<char>>) -> Seq<char>
    decreases cs.len(),
{
    if cs.len() == 0 {
        Seq::empty()
    } else {
        slash_joined(cs.drop_last()) + seq!['/'] + cs.last()
    }
}

/// The path of a list of components: `/` for none, otherwise `/a/b/c`.
pub open spec fn spec_format_path(cs: Seq<Seq<char>>) -> Seq<char> {
    if cs.len() == 0 {
        seq!['/']
    } else {
        slash_joined(cs)
    }
}

/// What `normalize_remote_path` gives on success.
pub open spec fn spec_normalized(path: Seq<char>) -> Seq<char> {
    spec_format_path(spec_components(path))
}

/// The path of a child named `name` of the folder at `parent`.
pub open spec fn spec_join_remote_path(parent: Seq<char>, name: Seq<char>) -> Seq<char> {
    if parent == seq!['/'] {
        seq!['/'] + name
    } else {
        trim_end_char(parent, '/') + seq!['/'] + name
    }
}

/// The folder part of a path: everything before the last slash, or `/` when that is
/// empty or there is no slash.
pub open spec fn spec_parent_path(path: Seq<char>) -> Seq<char> {
    match spec_rsplit_once(path, '/') {
        Some((parent, _)) => if parent.len() == 0 {
            seq!['/']
        } else {
            parent
        },
        None => seq!['/'],
    }
}

/// Splits a remote path into its components, rejecting `.` and `..`.
pub fn path_components(path: &str) -> (res: Result<Vec<String>, AppError>)
    ensures
        match res {
            Ok(v) => !has_dot_component(spec_components(path@)) && strings_view(v@)
                == spec_components(path@),
            Err(e) => has_dot_component(spec_components(path@)) && is_dot_component_error(
                e,
                path@,
            ),
        },
{
    let chars = chars_of(path);
    let trimmed = trim_chars(chars.as_slice());
    let parts = split_chars(trimmed.as_slice(), '/');
    let ghost all = split_on(spec_trim(path@), '/');
    let mut out: Vec<String> = Vec::new();
    let n = parts.len();
    for i in 0..n
        invariant
            n == parts@.len(),
            n == all.len(),
            all == split_on(spec_trim(path@), '/'),
            forall|j: int| 0 <= j < n ==> #[trigger] parts@[j]@ == all[j],
            strings_view(out@) == nonempty_parts(all.take(i as int)),
            !has_dot_component(nonempty_parts(all.take(i as int))),
    {
        let ghost pre = all.take(i as int);
        assert(all.take(i + 1).drop_last() =~= pre);
        assert(all.take(i + 1).last() == parts@[i as int]@);
        let part = &parts[i];
        if part.len() > 0 {
            let is_dot = (part.len() == 1 && part[0] == '.') || (part.len() == 2 && part[0] == '.'
                && part[1] == '.');
            proof {
                if part@ == seq!['.'] || part@ == seq!['.', '.'] {
                    assert(part@.len() == 1 || part@.len() == 2);
                } else if is_dot {
                    if part@.len() == 1 {
                        assert(part@ =~= seq!['.']);
                    } else {
                        assert(part@ =~= seq!['.', '.']);
                    }
                }
            }
            if is_dot {
                proof {
                    let cs = nonempty_parts(all.take(i + 1));
                    assert(cs == nonempty_parts(pre).push(part@));
                    assert(is_dot_component(cs[cs.len() - 1]));
                    lemma_nonempty_parts_prefix(all, i + 1);
                }
                return Err(
                    AppError::InvalidRemotePath {
                        path: String::from_str(path),
                        message: String::from_str("remote paths cannot contain . or .. components"),
                    },
                );
            }
            let s = string_of(part.as_slice());
            let ghost before = out@;
            out.push(s);
            proof {
                assert(strings_view(out@) =~= strings_view(before).push(s@));
                let cs = nonempty_parts(all.take(i + 1));
                assert forall|k: int| 0 <= k < cs.len() implies !#[trigger] is_dot_component(
                    cs[k],
                ) by {
                    if k < cs.len() - 1 {
                        assert(cs[k] == nonempty_parts(pre)[k]);
                    }
                }
            }
        }
    }
    assert(all.take(n as int) =~= all);
    Ok(out)
}

/// A dot component in the pieces read so far is one of the whole path's components.
proof fn lemma_nonempty_parts_prefix(all: Seq<Seq<char>>, k: int)
    requires
        0 <= k <= all.len(),
        has_dot_component(nonempty_parts(all.take(k))),
    ensures
        has_dot_component(nonempty_parts(all)),
    decreases all.len() - k,
{
    if k < all.len() {
        let a = nonempty_parts(all.take(k));
        let b = nonempty_parts(all.take(k + 1));
        assert(all.take(k + 1).drop_last() =~= all.take(k));
        let i = choose|i: int| 0 <= i < a.len() && #[trigger] is_dot_component(a[i]);
        assert(b[i] == a[i]);
        lemma_nonempty_parts_prefix(all, k + 1);
    } else {
        assert(all.take(k) =~= all);
    }
}

/// The path of a list of components: `/` for none, otherwise `/a/b/c`.
pub fn format_path(components: &[String]) -> (res: String)
    ensures
        res@ == spec_format_path(strings_view(components@)),
{
    let n = components.len();
    if n == 0 {
        let mut s = String::new();
        push_char(&mut s, '/');
        return s;
    }
    let mut s = String::new();
    let ghost cs = strings_view(components@);
    for i in 0..n
        invariant
            n == components@.len(),
            n > 0,
            cs == strings_view(components@),
            s@ == slash_joined(cs.take(i as int)),
    {
        assert(cs.take(i + 1).drop_last() =~= cs.take(i as int));
        assert(cs.take(i + 1).last() == components@[i as int]@);
        push_char(&mut s, '/');
        s.append(components[i].as_str());
    }
    assert(cs.take(n as int) =~= cs);
    s
}

/// The canonical form of a remote path: `/` for the root, otherwise `/a/b/c`.
pub fn normalize_remote_path(path: &str) -> (res: Result<String, AppError>)
    ensures
        match res {
            Ok(s) => !has_dot_component(spec_components(path@)) && s@ == spec_normalized(path@),
            Err(e) => has_dot_component(spec_components(path@)) && is_dot_component_error(
                e,
                path@,
            ),
        },
        res matches Ok(s) ==> {
            &&& s@.len() > 0
            &&& s@[0] == '/'
            &&& !has_double_slash(s@)
            &&& (s@ == seq!['/'] || s@.last() != '/')
        },
{
    proof {
        lemma_normalized_shape(path@);
    }
    let components = path_components(path)?;
    Ok(format_path(components.as_slice()))
}

/// The path of a child named `name` of the folder at `parent_path`.
pub fn join_remote_path(parent_path: &str, name: &str) -> (res: String)
    ensures
        res@ == spec_join_remote_path(parent_path@, name@),
{
    let parent = chars_of(parent_path);
    let is_root = parent.len() == 1 && parent[0] == '/';
    proof {
        if parent@ == seq!['/'] {
            assert(parent@.len() == 1);
        } else if is_root {
            assert(parent@ =~= seq!['/']);
        }
    }
    let mut s = String::new();
    if is_root {
        push_char(&mut s, '/');
    } else {
        let trimmed = trim_end_char_chars(parent.as_slice(), '/');
        push_chars(&mut s, trimmed.as_slice());
        push_char(&mut s, '/');
    }
    s.append(name);
    s
}

/// The folder part of a path: everything before the last slash, or `/`.
pub fn parent_remote_path(path: &str) -> (res: String)
    ensures
        res@ == spec_parent_path(path@),
{
    let chars = chars_of(path);
    match rsplit_once_chars(chars.as_slice(), '/') {
        Some((parent, _)) => {
            if parent.len() == 0 {
                let mut s = String::new();
                push_char(&mut s, '/');
                s
            } else {
                string_of(parent.as_slice())
            }
        },
        None => {
            let mut s = String::new();
            push_char(&mut s, '/');
            s
        },
    }
}

// ---------------------------------------------------------------------------
// Laws of path syntax
// ---------------------------------------------------------------------------

/// A path that `join_remote_path` can extend: the root, or a path that does not end
/// with a slash.
pub open spec fn is_folder_path(p: Seq<char>) -> bool {
    p == seq!['/'] || (p.len() > 0 && p.last() != '/')
}

/// The parent of a joined child path is the folder it was joined to, when the child's
/// name holds no slash.
pub proof fn lemma_parent_of_join(parent: Seq<char>, name: Seq<char>)
    requires
        is_folder_path(parent),
        !name.contains('/'),
    ensures
        spec_parent_path(spec_join_remote_path(parent, name)) == parent,
{
    let joined = spec_join_remote_path(parent, name);
    if parent == seq!['/'] {
        let k = 0int;
        assert(joined =~= seq!['/'] + name);
        assert forall|j: int| k < j < joined.len() implies joined[j] != '/' by {
            assert(joined[j] == name[j - 1]);
        }
        crate::text::lemma_last_index_of(joined, '/', k);
        assert(joined.subrange(0, 0) =~= Seq::<char>::empty());
    } else {
        assert(trim_end_char(parent, '/') == parent);
        let k = parent.len() as int;
        assert(joined =~= parent + seq!['/'] + name);
        assert forall|j: int| k < j < joined.len() implies joined[j] != '/' by {
            assert(joined[j] == name[j - k - 1]);
        }
        crate::text::lemma_last_index_of(joined, '/', k);
        assert(joined.subrange(0, k) =~= parent);
    }
}

/// Every canonical path is a folder path.
pub proof fn lemma_format_path_is_folder_path(cs: Seq<Seq<char>>)
    requires
        forall|i: int| 0 <= i < cs.len() ==> #[trigger] cs[i].len() > 0 && !cs[i].contains('/'),
    ensures
        is_folder_path(spec_format_path(cs)),
{
    if cs.len() > 0 {
        let s = spec_format_path(cs);
        let last = cs.last();
        assert(s == slash_joined(cs.drop_last()) + seq!['/'] + last);
        assert(s.last() == last.last());
        assert(last.last() != '/') by {
            if last.last() == '/' {
                assert(last.contains('/'));
            }
        }
    }
}

/// Splitting at a separator followed by a piece without separators adds that piece.
pub proof fn lemma_split_append(s: Seq<char>, sep: char, t: Seq<char>)
    requires
        !t.contains(sep),
    ensures
        split_on(s + seq![sep] + t, sep) == split_on(s, sep).push(t),
    decreases t.len(),
{
    let whole = s + seq![sep] + t;
    if t.len() == 0 {
        assert(whole.drop_last() =~= s);
        assert(whole.last() == sep);
        assert(split_on(whole, sep) == split_on(s, sep).push(Seq::<char>::empty()));
        assert(t =~= Seq::<char>::empty());
    } else {
        let t0 = t.drop_last();
        assert(!t0.contains(sep)) by {
            if t0.contains(sep) {
                let k = choose|k: int| 0 <= k < t0.len() && t0[k] == sep;
                assert(t[k] == sep);
            }
        }
        lemma_split_append(s, sep, t0);
        assert(whole.drop_last() =~= s + seq![sep] + t0);
        assert(whole.last() == t.last());
        assert(t.last() != sep) by {
            assert(t[t.len() - 1] == t.last());
        }
        crate::text::lemma_split_on_len(whole.drop_last(), sep);
        assert(t0.push(t.last()) =~= t);
        assert(split_on(whole, sep) =~= split_on(s, sep).push(t));
    }
}

/// The pieces of a slash-joined path are an empty piece and the components.
pub proof fn lemma_split_slash_joined(cs: Seq<Seq<char>>)
    requires
        forall|i: int| 0 <= i < cs.len() ==> !(#[trigger] cs[i]).contains('/'),
    ensures
        split_on(slash_joined(cs), '/') == seq![Seq::<char>::empty()] + cs,
    decreases cs.len(),
{
    if cs.len() == 0 {
        assert(split_on(Seq::<char>::empty(), '/') =~= seq![Seq::<char>::empty()]);
        assert(seq![Seq::<char>::empty()] + cs =~= seq![Seq::<char>::empty()]);
    } else {
        let init = cs.drop_last();
        assert forall|i: int| 0 <= i < init.len() implies !(#[trigger] init[i]).contains('/') by {
            assert(init[i] == cs[i]);
        }
        lemma_split_slash_joined(init);
        assert(!cs[cs.len() - 1].contains('/'));
        lemma_split_append(slash_joined(init), '/', cs.last());
        assert((seq![Seq::<char>::empty()] + init).push(cs.last()) =~= seq![Seq::<char>::empty()]
            + cs);
    }
}

/// Dropping empty pieces from an empty piece followed by non-empty ones leaves those.
pub proof fn lemma_nonempty_parts_of(cs: Seq<Seq<char>>)
    requires
        forall|i: int| 0 <= i < cs.len() ==> (#[trigger] cs[i]).len() > 0,
    ensures
        nonempty_parts(seq![Seq::<char>::empty()] + cs) == cs,
    decreases cs.len(),
{
    let all = seq![Seq::<char>::empty()] + cs;
    if cs.len() == 0 {
        assert(all.drop_last() =~= Seq::<Seq<char>>::empty());
        assert(all.last().len() == 0);
        assert(nonempty_parts(all) == nonempty_parts(all.drop_last()));
        assert(nonempty_parts(Seq::<Seq<char>>::empty()) =~= Seq::<Seq<char>>::empty());
        assert(cs =~= Seq::<Seq<char>>::empty());
    } else {
        assert(cs[cs.len() - 1].len() > 0);
        let init = cs.drop_last();
        assert forall|i: int| 0 <= i < init.len() implies (#[trigger] init[i]).len() > 0 by {
            assert(init[i] == cs[i]);
        }
        lemma_nonempty_parts_of(init);
        assert(all.drop_last() =~= seq![Seq::<char>::empty()] + init);
        assert(all.last() == cs[cs.len() - 1]);
        assert(init.push(cs.last()) =~= cs);
    }
}

/// Pieces of a split hold no separator.
proof fn lemma_split_pieces(s: Seq<char>, sep: char)
    ensures
        forall|i: int|
            0 <= i < split_on(s, sep).len() ==> !(#[trigger] split_on(s, sep)[i]).contains(sep),
    decreases s.len(),
{
    if s.len() > 0 {
        lemma_split_pieces(s.drop_last(), sep);
        crate::text::lemma_split_on_len(s.drop_last(), sep);
        let r = split_on(s.drop_last(), sep);
        if s.last() != sep {
            let piece = r.last().push(s.last());
            assert(!piece.contains(sep)) by {
                if piece.contains(sep) {
                    let k = choose|k: int| 0 <= k < piece.len() && piece[k] == sep;
                    assert(r[r.len() - 1][k] == sep);
                }
            }
        }
        assert forall|i: int| 0 <= i < split_on(s, sep).len() implies !(#[trigger] split_on(
            s,
            sep,
        )[i]).contains(sep) by {
            if i < r.len() - 1 {
                assert(split_on(s, sep)[i] == r[i]);
            } else if i == r.len() - 1 && s.last() == sep {
                assert(split_on(s, sep)[i] == r[i]);
            }
        }
    }
}

/// Kept pieces are non-empty pieces of the original list.
proof fn lemma_nonempty_parts_members(parts: Seq<Seq<char>>, c: char)
    requires
        forall|i: int| 0 <= i < parts.len() ==> !(#[trigger] parts[i]).contains(c),
    ensures
        forall|i: int|
            0 <= i < nonempty_parts(parts).len() ==> (#[trigger] nonempty_parts(parts)[i]).len()
                > 0 && !nonempty_parts(parts)[i].contains(c),
    decreases parts.len(),
{
    if parts.len() > 0 {
        let init = parts.drop_last();
        assert forall|i: int| 0 <= i < init.len() implies !(#[trigger] init[i]).contains(c) by {
            assert(init[i] == parts[i]);
        }
        lemma_nonempty_parts_members(init, c);
        assert(!parts[parts.len() - 1].contains(c));
        let r = nonempty_parts(parts);
        let q = nonempty_parts(init);
        if parts.last().len() == 0 {
            assert(r == q);
        } else {
            assert(r == q.push(parts.last()));
            assert forall|i: int| 0 <= i < r.len() implies (#[trigger] r[i]).len() > 0
                && !r[i].contains(c) by {
                if i < q.len() {
                    assert(r[i] == q[i]);
                }
            }
        }
    }
}

/// Extending a canonical path by one component is joining the component to it.
pub proof fn lemma_format_push(cs: Seq<Seq<char>>, c: Seq<char>)
    requires
        forall|i: int| 0 <= i < cs.len() ==> #[trigger] cs[i].len() > 0 && !cs[i].contains('/'),
    ensures
        spec_format_path(cs.push(c)) == spec_join_remote_path(spec_format_path(cs), c),
{
    let p = spec_format_path(cs);
    assert(cs.push(c).drop_last() =~= cs);
    if cs.len() == 0 {
        assert(slash_joined(cs) =~= Seq::<char>::empty());
        assert(slash_joined(cs.push(c)) =~= seq!['/'] + c);
    } else {
        lemma_format_path_is_folder_path(cs);
        assert(p == slash_joined(cs.drop_last()) + seq!['/'] + cs.last());
        assert(cs[cs.len() - 1].len() > 0);
        assert(p.len() >= 2);
        assert(p != seq!['/']);
        assert(trim_end_char(p, '/') == p);
        assert(slash_joined(cs.push(c)) == p + seq!['/'] + c);
    }
}

/// Checks that the device exposes a storage: the commands work on the first one.
pub fn check_storages(count: usize) -> (res: Result<(), AppError>)
    ensures
        count > 0 <==> res is Ok,
        res matches Err(e) ==> e matches AppError::Mtp { message } && message@
            == "TP-7 reported no MTP storages."@,
{
    if count == 0 {
        Err(AppError::Mtp { message: String::from_str("TP-7 reported no MTP storages.") })
    } else {
        Ok(())
    }
}

/// Components hold no slash and are non-empty.
pub proof fn lemma_components_shape(path: Seq<char>)
    ensures
        forall|i: int|
            0 <= i < spec_components(path).len() ==> (#[trigger] spec_components(path)[i]).len()
                > 0 && !spec_components(path)[i].contains('/'),
{
    lemma_split_pieces(spec_trim(path), '/');
    lemma_nonempty_parts_members(split_on(spec_trim(path), '/'), '/');
}

/// A canonical path reads back as its components, provided the last component does not
/// end with white space (which trimming would drop).
pub proof fn lemma_components_of_format(cs: Seq<Seq<char>>)
    requires
        forall|i: int| 0 <= i < cs.len() ==> (#[trigger] cs[i]).len() > 0 && !cs[i].contains('/'),
        cs.len() > 0 ==> !crate::text::is_white_space(cs.last().last()),
    ensures
        spec_components(spec_format_path(cs)) == cs,
{
    let p = spec_format_path(cs);
    if cs.len() == 0 {
        assert(crate::text::trim_start_ws(p) == p);
        assert(crate::text::trim_end_ws(p) == p);
        assert(p =~= seq![] + seq!['/'] + Seq::<char>::empty());
        lemma_split_append(Seq::<char>::empty(), '/', Seq::<char>::empty());
        assert(split_on(Seq::<char>::empty(), '/') =~= seq![Seq::<char>::empty()]);
        let pieces = split_on(p, '/');
        assert(pieces =~= seq![Seq::<char>::empty(), Seq::<char>::empty()]);
        assert(pieces.drop_last() =~= seq![Seq::<char>::empty()]);
        assert(seq![Seq::<char>::empty()].drop_last() =~= Seq::<Seq<char>>::empty());
        assert(spec_trim(p) == p);
        assert(nonempty_parts(pieces) == nonempty_parts(pieces.drop_last()));
        let one = seq![Seq::<char>::empty()];
        assert(nonempty_parts(one) == nonempty_parts(one.drop_last()));
        assert(nonempty_parts(Seq::<Seq<char>>::empty()) =~= Seq::<Seq<char>>::empty());
        assert(cs =~= Seq::<Seq<char>>::empty());
    } else {
        lemma_split_slash_joined(cs);
        let init = cs.drop_last();
        assert(p == slash_joined(init) + seq!['/'] + cs.last());
        assert(cs[cs.len() - 1].len() > 0);
        assert(p.last() == cs.last().last());
        lemma_slash_joined_first(cs);
        assert(crate::text::trim_start_ws(p) == p);
        assert(crate::text::trim_end_ws(p) == p);
        assert(spec_trim(p) == p);
        lemma_nonempty_parts_of(cs);
        assert(split_on(p, '/') == seq![Seq::<char>::empty()] + cs);
    }
}

/// A non-empty slash-joined path starts with a slash.
pub proof fn lemma_slash_joined_first(cs: Seq<Seq<char>>)
    requires
        cs.len() > 0,
    ensures
        slash_joined(cs).len() > 0,
        slash_joined(cs)[0] == '/',
    decreases cs.len(),
{
    if cs.len() > 1 {
        lemma_slash_joined_first(cs.drop_last());
    } else {
        assert(slash_joined(cs.drop_last()) =~= Seq::<char>::empty());
    }
}

/// Whether `s` holds two slashes in a row.
pub open spec fn has_double_slash(s: Seq<char>) -> bool {
    exists|i: int| 0 <= i && i + 1 < s.len() && #[trigger] s[i] == '/' && s[i + 1] == '/'
}

proof fn lemma_slash_joined_single(cs: Seq<Seq<char>>)
    requires
        forall|i: int| 0 <= i < cs.len() ==> (#[trigger] cs[i]).len() > 0 && !cs[i].contains('/'),
    ensures
        !has_double_slash(slash_joined(cs)),
        cs.len() > 0 ==> slash_joined(cs).last() != '/',
    decreases cs.len(),
{
    if cs.len() > 0 {
        let init = cs.drop_last();
        let c = cs.last();
        assert(cs[cs.len() - 1] == c);
        lemma_slash_joined_single(init);
        let prev = slash_joined(init);
        let s = slash_joined(cs);
        assert(s == prev + seq!['/'] + c);
        let n = prev.len();
        assert(c[0] != '/') by {
            assert(!c.contains('/'));
            assert(c.contains(c[0]) ==> c[0] != '/');
        }
        assert(s.last() == c.last());
        assert(c.last() != '/') by {
            assert(c[c.len() - 1] == c.last());
        }
        assert forall|i: int| 0 <= i && i + 1 < s.len() implies !(#[trigger] s[i] == '/' && s[i + 1] == '/') by {
            if i + 1 < n {
                assert(s[i] == prev[i] && s[i + 1] == prev[i + 1]);
            } else if i + 1 == n {
                assert(s[i + 1] == '/');
                assert(s[i] == prev.last());
                assert(init.len() > 0);
            } else if i == n {
                assert(s[i + 1] == c[0]);
            } else {
                assert(s[i] == c[i - n - 1]);
                assert(c.contains(c[i - n - 1]));
            }
        }
    }
}

/// A normalised path starts with `/`, holds no two slashes in a row, ends with a slash
/// only when it is the root, and has no empty component.
pub proof fn lemma_normalized_shape(path: Seq<char>)
    ensures
        spec_normalized(path).len() > 0,
        spec_normalized(path)[0] == '/',
        !has_double_slash(spec_normalized(path)),
        spec_normalized(path) == seq!['/'] || spec_normalized(path).last() != '/',
{
    let cs = spec_components(path);
    lemma_components_shape(path);
    if cs.len() > 0 {
        lemma_slash_joined_first(cs);
        lemma_slash_joined_single(cs);
    } else {
        let r = seq!['/'];
        assert(!has_double_slash(r));
    }
}

/// Normalising a normalised path changes nothing, unless its last component ends with
/// white space (trimming removes that white space on the second pass).
pub proof fn lemma_normalize_idempotent(path: Seq<char>)
    requires
        !has_dot_component(spec_components(path)),
        !crate::text::is_white_space(spec_normalized(path).last()),
    ensures
        spec_components(spec_normalized(path)) == spec_components(path),
        !has_dot_component(spec_components(spec_normalized(path))),
        spec_normalized(spec_normalized(path)) == spec_normalized(path),
{
    let cs = spec_components(path);
    lemma_components_shape(path);
    if cs.len() > 0 {
        lemma_slash_joined_first(cs);
        assert(spec_normalized(path) == slash_joined(cs.drop_last()) + seq!['/'] + cs.last());
        assert(spec_normalized(path).last() == cs.last().last());
    }
    lemma_components_of_format(cs);
}

// ---------------------------------------------------------------------------
// Listing order
// ---------------------------------------------------------------------------

/// Whether `a` may come before `b` by name in a listing: by lower-cased name, then by
/// the name itself.
pub open spec fn name_listed_before(a: Seq<char>, b: Seq<char>) -> bool {
    lex_lt(lowercase(a), lowercase(b)) || (lowercase(a) == lowercase(b) && lex_le(a, b))
}

/// Whether an object may come before another in a folder listing: folders before
/// files; within each, by name.
pub open spec fn object_listed_before(a_folder: bool, a_name: Seq<char>, b_folder: bool, b_name: Seq<char>) -> bool {
    (a_folder && !b_folder) || (a_folder == b_folder && name_listed_before(a_name, b_name))
}

/// Ordering of listing keys: folders (rank 0) before files (rank 1), then by
/// lower-cased name, then by name.
pub open spec fn listing_le(r1: int, l1: Seq<char>, n1: Seq<char>, r2: int, l2: Seq<char>, n2: Seq<char>) -> bool {
    r1 < r2 || (r1 == r2 && (lex_lt(l1, l2) || (l1 == l2 && lex_le(n1, n2))))
}

pub proof fn lemma_listing_total(r1: int, l1: Seq<char>, n1: Seq<char>, r2: int, l2: Seq<char>, n2: Seq<char>)
    ensures
        listing_le(r1, l1, n1, r2, l2, n2) || listing_le(r2, l2, n2, r1, l1, n1),
{
    lemma_lex_trichotomy(l1, l2);
    lemma_lex_trichotomy(n1, n2);
}

pub proof fn lemma_listing_trans(
    r1: int,
    l1: Seq<char>,
    n1: Seq<char>,
    r2: int,
    l2: Seq<char>,
    n2: Seq<char>,
    r3: int,
    l3: Seq<char>,
    n3: Seq<char>,
)
    requires
        listing_le(r1, l1, n1, r2, l2, n2),
        listing_le(r2, l2, n2, r3, l3, n3),
    ensures
        listing_le(r1, l1, n1, r3, l3, n3),
{
    if r1 == r2 && r2 == r3 {
        if lex_lt(l1, l2) && lex_lt(l2, l3) {
            lemma_lex_transitive(l1, l2, l3);
        }
        if l1 == l2 && l2 == l3 && lex_lt(n1, n2) && lex_lt(n2, n3) {
            lemma_lex_transitive(n1, n2, n3);
        }
    }
}

/// Compares two listing keys.
pub fn listing_le_exec(r1: u8, name1: &str, r2: u8, name2: &str) -> (res: bool)
    ensures
        res == listing_le(r1 as int, lowercase(name1@), name1@, r2 as int, lowercase(name2@), name2@),
{
    if r1 < r2 {
        return true;
    }
    if r1 > r2 {
        return false;
    }
    let l1 = chars_of(to_lowercase(name1).as_str());
    let l2 = chars_of(to_lowercase(name2).as_str());
    if lex_lt_exec(l1.as_slice(), l2.as_slice()) {
        return true;
    }
    if !chars_eq(l1.as_slice(), l2.as_slice()) {
        return false;
    }
    let n1 = chars_of(name1);
    let n2 = chars_of(name2);
    chars_eq(n1.as_slice(), n2.as_slice()) || lex_lt_exec(n1.as_slice(), n2.as_slice())
}

/// The listing rank of a kind: folders first.
pub open spec fn kind_rank(kind: ObjectKind) -> int {
    match kind {
        ObjectKind::Folder => 0,
        ObjectKind::File => 1,
    }
}

/// The listing rank of a kind: folders first.
pub fn kind_sort_key(kind: &ObjectKind) -> (res: u8)
    ensures
        res as int == kind_rank(*kind),
{
    match kind {
        ObjectKind::Folder => 0,
        ObjectKind::File => 1,
    }
}

impl SortOrder for RemoteObject {
    open spec fn spec_le(&self, other: &Self) -> bool {
        listing_le(
            kind_rank(self.kind),
            lowercase(self.name@),
            self.name@,
            kind_rank(other.kind),
            lowercase(other.name@),
            other.name@,
        )
    }

    proof fn lemma_total(a: &Self, b: &Self) {
        lemma_listing_total(
            kind_rank(a.kind),
            lowercase(a.name@),
            a.name@,
            kind_rank(b.kind),
            lowercase(b.name@),
            b.name@,
        );
    }

    proof fn lemma_trans(a: &Self, b: &Self, c: &Self) {
        lemma_listing_trans(
            kind_rank(a.kind),
            lowercase(a.name@),
            a.name@,
            kind_rank(b.kind),
            lowercase(b.name@),
            b.name@,
            kind_rank(c.kind),
            lowercase(c.name@),
            c.name@,
        );
    }

    fn le(&self, other: &Self) -> (res: bool) {
        listing_le_exec(
            kind_sort_key(&self.kind),
            self.name.as_str(),
            kind_sort_key(&other.kind),
            other.name.as_str(),
        )
    }
}

/// The listing rank of an object: folders first.
pub open spec fn object_rank(o: ObjectInfo) -> int {
    if is_folder_object(o) {
        0
    } else {
        1
    }
}

impl SortOrder for ObjectInfo {
    open spec fn spec_le(&self, other: &Self) -> bool {
        listing_le(
            object_rank(*self),
            lowercase(self.filename@),
            self.filename@,
            object_rank(*other),
            lowercase(other.filename@),
            other.filename@,
        )
    }

    proof fn lemma_total(a: &Self, b: &Self) {
        lemma_listing_total(
            object_rank(*a),
            lowercase(a.filename@),
            a.filename@,
            object_rank(*b),
            lowercase(b.filename@),
            b.filename@,
        );
    }

    proof fn lemma_trans(a: &Self, b: &Self, c: &Self) {
        lemma_listing_trans(
            object_rank(*a),
            lowercase(a.filename@),
            a.filename@,
            object_rank(*b),
            lowercase(b.filename@),
            b.filename@,
            object_rank(*c),
            lowercase(c.filename@),
            c.filename@,
        );
    }

    fn le(&self, other: &Self) -> (res: bool) {
        let r1: u8 = if self.is_folder() {
            0
        } else {
            1
        };
        let r2: u8 = if other.is_folder() {
            0
        } else {
            1
        };
        listing_le_exec(r1, self.filename.as_str(), r2, other.filename.as_str())
    }
}

/// Sorts report entries: folders before files, then by case-insensitive name, then by
/// name; entries with equal keys keep their order.
pub fn sort_remote_objects(objects: &mut Vec<RemoteObject>)
    ensures
        final(objects)@.to_multiset() == old(objects)@.to_multiset(),
        sorted_by_order(final(objects)@),
        forall|i: int, j: int|
            0 <= i < j < final(objects)@.len() ==> object_listed_before(
                (#[trigger] final(objects)@[i]).kind == ObjectKind::Folder,
                final(objects)@[i].name@,
                (#[trigger] final(objects)@[j]).kind == ObjectKind::Folder,
                final(objects)@[j].name@,
            ),
        forall|e: RemoteObject| #[trigger] equivalents(final(objects)@, e) == equivalents(
            old(objects)@,
            e,
        ),
{
    sort_stable(objects);
    proof {
        let r = objects@;
        assert forall|i: int, j: int| 0 <= i < j < r.len() implies object_listed_before(
            (#[trigger] r[i]).kind == ObjectKind::Folder,
            r[i].name@,
            (#[trigger] r[j]).kind == ObjectKind::Folder,
            r[j].name@,
        ) by {
            assert(r[i].spec_le(&r[j]));
        }
    }
}

/// Whether a listing entry reports one of `objects`.
pub open spec fn matches_some(r: RemoteObject, objects: Seq<ObjectInfo>) -> bool {
    exists|j: int| 0 <= j < objects.len() && #[trigger] remote_object_matches(r, objects[j])
}

/// What a report entry says of an object.
pub open spec fn remote_key(r: RemoteObject) -> (u32, u32, u32, ObjectKind, Seq<char>, u64, Option<Seq<char>>) {
    (r.id, r.parent_id, r.storage_id, r.kind, r.name@, r.size, opt_str(r.modified))
}

/// What the report entry of an object says of it.
pub open spec fn object_key(o: ObjectInfo) -> (u32, u32, u32, ObjectKind, Seq<char>, u64, Option<Seq<char>>) {
    (o.handle, o.parent, o.storage_id, object_kind(o), o.filename@, o.size, opt_datetime_format(o.modified))
}

/// The listing entries for a folder's objects, in listing order: one entry per object.
pub fn to_remote_objects(objects: Vec<ObjectInfo>) -> (res: Vec<RemoteObject>)
    ensures
        res@.len() == objects@.len(),
        sorted_by_order(res@),
        forall|i: int, j: int|
            0 <= i < j < res@.len() ==> object_listed_before(
                (#[trigger] res@[i]).kind == ObjectKind::Folder,
                res@[i].name@,
                (#[trigger] res@[j]).kind == ObjectKind::Folder,
                res@[j].name@,
            ),
        forall|i: int| 0 <= i < res@.len() ==> matches_some(#[trigger] res@[i], objects@),
        res@.map_values(|r: RemoteObject| remote_key(r)).to_multiset() == objects@.map_values(
            |o: ObjectInfo| object_key(o),
        ).to_multiset(),
        exists|converted: Seq<RemoteObject>|
            #![trigger converted.to_multiset()]
            {
                &&& converted.len() == objects@.len()
                &&& forall|k: int|
                    0 <= k < converted.len() ==> remote_object_matches(
                        #[trigger] converted[k],
                        objects@[k],
                    )
                &&& res@.to_multiset() == converted.to_multiset()
                &&& forall|e: RemoteObject| #[trigger]
                    equivalents(res@, e) == equivalents(converted, e)
            },
{
    let ghost all = objects@;
    let n = objects.len();
    let mut rest = objects;
    let mut out: Vec<RemoteObject> = Vec::new();
    let mut i: usize = 0;
    while i < n
        invariant
            n == all.len(),
            i <= n,
            rest@ == all.subrange(i as int, n as int),
            out@.len() == i,
            forall|k: int| 0 <= k < i ==> remote_object_matches(#[trigger] out@[k], all[k]),
        decreases n - i,
    {
        let object = rest.remove(0);
        assert(object == all[i as int]);
        assert(rest@ =~= all.subrange(i + 1, n as int));
        out.push(RemoteObject::from_object(object));
        i += 1;
    }
    let ghost unsorted = out@;
    assert forall|k: int| 0 <= k < unsorted.len() implies exists|j: int|
        0 <= j < all.len() && remote_object_matches(#[trigger] unsorted[k], all[j]) by {
        assert(remote_object_matches(unsorted[k], all[k]));
    }
    assert(unsorted.map_values(|r: RemoteObject| remote_key(r)) =~= all.map_values(
        |o: ObjectInfo| object_key(o),
    )) by {
        assert forall|k: int| 0 <= k < unsorted.len() implies remote_key(unsorted[k]) == object_key(
            all[k],
        ) by {
            assert(remote_object_matches(unsorted[k], all[k]));
        }
    }
    sort_remote_objects(&mut out);
    proof {
        crate::order::lemma_map_multiset(out@, unsorted, |r: RemoteObject| remote_key(r));
        vstd::seq_lib::to_multiset_len(out@);
        vstd::seq_lib::to_multiset_len(unsorted);
        assert forall|k: int| 0 <= k < out@.len() implies matches_some(#[trigger] out@[k], all) by {
            let x = out@[k];
            assert(out@.contains(x));
            vstd::seq_lib::to_multiset_contains(out@, x);
            vstd::seq_lib::to_multiset_contains(unsorted, x);
            assert(unsorted.contains(x));
            let m = choose|m: int| 0 <= m < unsorted.len() && unsorted[m] == x;
            assert(remote_object_matches(unsorted[m], all[m]));
        }
        assert(forall|k: int|
            0 <= k < unsorted.len() ==> remote_object_matches(#[trigger] unsorted[k], all[k]));
    }
    out
}

/// Sorts object metadata in the same order as `sort_remote_objects`.
pub fn sort_object_infos(objects: &mut Vec<ObjectInfo>)
    ensures
        final(objects)@.to_multiset() == old(objects)@.to_multiset(),
        sorted_by_order(final(objects)@),
        forall|i: int, j: int|
            0 <= i < j < final(objects)@.len() ==> object_listed_before(
                is_folder_object(#[trigger] final(objects)@[i]),
                final(objects)@[i].filename@,
                is_folder_object(#[trigger] final(objects)@[j]),
                final(objects)@[j].filename@,
            ),
        forall|e: ObjectInfo| #[trigger] equivalents(final(objects)@, e) == equivalents(
            old(objects)@,
            e,
        ),
{
    sort_stable(objects);
    proof {
        let r = objects@;
        assert forall|i: int, j: int| 0 <= i < j < r.len() implies object_listed_before(
            is_folder_object(#[trigger] r[i]),
            r[i].filename@,
            is_folder_object(#[trigger] r[j]),
            r[j].filename@,
        ) by {
            assert(r[i].spec_le(&r[j]));
        }
    }
}

// ---------------------------------------------------------------------------
// Resolution through listings
// ---------------------------------------------------------------------------

/// Index of the first object named `name`, or -1.
pub open spec fn first_named(children: Seq<ObjectInfo>, name: Seq<char>) -> int
    decreases children.len(),
{
    if children.len() == 0 {
        -1
    } else if children[0].filename@ == name {
        0
    } else {
        let r = first_named(children.drop_first(), name);
        if r < 0 {
            -1
        } else {
            r + 1
        }
    }
}

proof fn lemma_first_named(children: Seq<ObjectInfo>, name: Seq<char>, i: int)
    requires
        -1 <= i < children.len(),
        i >= 0 ==> children[i].filename@ == name,
        forall|j: int| 0 <= j < children.len() && (i < 0 || j < i) ==> children[j].filename@
            != name,
    ensures
        first_named(children, name) == i,
    decreases children.len(),
{
    if children.len() > 0 && children[0].filename@ != name {
        lemma_first_named(children.drop_first(), name, if i < 0 {
            -1
        } else {
            i - 1
        });
    }
}

/// The position of the first object named `name`.
pub fn find_named(children: &[ObjectInfo], name: &str) -> (res: Option<usize>)
    ensures
        match res {
            Some(i) => i < children@.len() && first_named(children@, name@) == i as int,
            None => first_named(children@, name@) == -1,
        },
{
    let n = children.len();
    for i in 0..n
        invariant
            n == children@.len(),
            forall|j: int| 0 <= j < i ==> children@[j].filename@ != name@,
    {
        let a = chars_of(children[i].filename.as_str());
        let b = chars_of(name);
        if chars_eq(a.as_slice(), b.as_slice()) {
            proof {
                lemma_first_named(children@, name@, i as int);
            }
            return Some(i);
        }
    }
    proof {
        lemma_first_named(children@, name@, -1);
    }
    None
}

/// The next thing a path resolution needs.
pub enum ResolveStep {
    /// The listing of the folder with this handle (`None`: the storage root).
    List(Option<u32>),
    /// The path resolved.
    Done(ResolvedPath),
    /// The path does not resolve.
    Failed(AppError),
}

/// A path resolution in progress: the canonical path, its components, how many have
/// been found, and the folder that holds the next one.
pub struct PathResolution {
    pub path: String,
    pub components: Vec<String>,
    pub index: usize,
    pub parent: Option<u32>,
}

/// Whether a resolution is consistent.
pub open spec fn resolution_wf(r: PathResolution) -> bool {
    r.index < r.components@.len() && r.path@ == spec_format_path(strings_view(r.components@))
}

/// The canonical path of the first `k` components.
pub open spec fn prefix_path(r: PathResolution, k: int) -> Seq<char> {
    spec_format_path(strings_view(r.components@).take(k))
}

/// Starts resolving `path`: the root resolves at once; otherwise the root listing is
/// needed first.
pub fn start_resolve(path: &str) -> (res: Result<Result<PathResolution, ResolvedPath>, AppError>)
    ensures
        match res {
            Ok(Ok(r)) => resolution_wf(r) && r.index == 0 && r.parent.is_none() && r.path@
                == spec_normalized(path@) && strings_view(r.components@) == spec_components(
                path@,
            ) && !has_dot_component(spec_components(path@)),
            Ok(Err(done)) => spec_components(path@).len() == 0 && done.path@ == seq!['/']
                && done.target is Root,
            Err(e) => has_dot_component(spec_components(path@)) && is_dot_component_error(
                e,
                path@,
            ),
        },
{
    let components = path_components(path)?;
    let normalized = format_path(components.as_slice());
    if components.len() == 0 {
        return Ok(Err(ResolvedPath { path: normalized, target: RemoteTarget::Root }));
    }
    Ok(Ok(PathResolution { path: normalized, components, index: 0, parent: None }))
}

impl PathResolution {
    /// Takes the listing of the folder that holds the next component: the first object
    /// with that name is looked up; if none exists the path is not found; if it is the
    /// last component the path resolves to it; if it is not a folder the path is not a
    /// folder; otherwise its listing is needed next.
    pub fn step(&mut self, children: Vec<ObjectInfo>) -> (res: ResolveStep)
        requires
            resolution_wf(*old(self)),
        ensures
            ({
                let i = old(self).index as int;
                let name = strings_view(old(self).components@)[i];
                let k = first_named(children@, name);
                let last = i == old(self).components@.len() - 1;
                match res {
                    ResolveStep::Failed(e) => (k < 0 && e is RemotePathNotFound
                        && e->RemotePathNotFound_path@ == prefix_path(*old(self), i + 1)) || (k
                        >= 0 && !last && !is_folder_object(children@[k])
                        && e is RemotePathNotDirectory && e->RemotePathNotDirectory_path@
                        == prefix_path(*old(self), i + 1)),
                    ResolveStep::Done(done) => k >= 0 && last && done.path@ == old(self).path@
                        && done.target == RemoteTarget::Object(children@[k]),
                    ResolveStep::List(parent) => k >= 0 && !last && is_folder_object(children@[k])
                        && parent == Some(children@[k].handle) && final(self).index == i + 1
                        && final(self).parent == parent && final(self).components
                        == old(self).components && final(self).path == old(self).path
                        && resolution_wf(*final(self)),
                }
            }),
    {
        let i = self.index;
        assert(i < self.components.len());
        let found = find_named(children.as_slice(), self.components[i].as_str());
        let last = i == self.components.len() - 1;
        match found {
            None => {
                let prefix = self.prefix(i + 1);
                ResolveStep::Failed(AppError::RemotePathNotFound { path: prefix })
            },
            Some(k) => {
                let mut children = children;
                let object = children.remove(k);
                if last {
                    let path = self.path.clone();
                    return ResolveStep::Done(
                        ResolvedPath { path, target: RemoteTarget::Object(object) },
                    );
                }
                if !object.is_folder() {
                    let prefix = self.prefix(i + 1);
                    return ResolveStep::Failed(AppError::RemotePathNotDirectory { path: prefix });
                }
                self.index = i + 1;
                self.parent = Some(object.handle);
                ResolveStep::List(Some(object.handle))
            },
        }
    }

    /// The canonical path of the first `k` components.
    fn prefix(&self, k: usize) -> (res: String)
        requires
            k <= self.components@.len(),
        ensures
            res@ == prefix_path(*self, k as int),
    {
        let mut taken: Vec<String> = Vec::new();
        for j in 0..k
            invariant
                k <= self.components@.len(),
                strings_view(taken@) == strings_view(self.components@).take(j as int),
        {
            let s = self.components[j].clone();
            assert(s@ == self.components@[j as int]@);
            let ghost before = taken@;
            taken.push(s);
            assert(strings_view(taken@) =~= strings_view(before).push(s@));
            assert(strings_view(taken@) =~= strings_view(self.components@).take(j + 1));
        }
        format_path(taken.as_slice())
    }
}

} // verus!

//! `tp7 tree`: the depth-first listing of a remote folder, down to an optional depth.
use vstd::prelude::*;

use crate::mtp::{ObjectInfo, is_folder_object};
use crate::remote::{
    RemoteObject, RemoteTarget, join_remote_path, remote_object_matches, spec_join_remote_path,
};

verus! {

/// The report of `tp7 tree`.
#[derive(Debug)]
pub struct TreeReport {
    pub path: String,
    pub storage_id: u32,
    pub entries: Vec<TreeEntry>,
}

/// One object of a tree listing, with its path and depth (0 for the top level).
#[derive(Debug, PartialEq, Eq)]
pub struct TreeEntry {
    pub path: String,
    pub depth: usize,
    pub object: RemoteObject,
}

impl TreeEntry {
    /// The entry for `object` at `path` and `depth`.
    pub fn from_object(path: String, depth: usize, object: ObjectInfo) -> (res: Self)
        ensures
            res.path == path,
            res.depth == depth,
            remote_object_matches(res.object, object),
    {
        TreeEntry { path, depth, object: RemoteObject::from_object(object) }
    }
}

/// How a tree listing starts for what the path names.
pub enum TreeStart {
    /// List the children of the root (`None`) or of a folder.
    Children(Option<u32>),
    /// A file is listed alone, at depth 0.
    Single(ObjectInfo),
}

/// How a tree listing of the resolved target starts.
pub fn tree_start(target: RemoteTarget) -> (res: TreeStart)
    ensures
        match target {
            RemoteTarget::Root => res matches TreeStart::Children(h) && h.is_none(),
            RemoteTarget::Object(o) => if is_folder_object(o) {
                res matches TreeStart::Children(h) && h == Some(o.handle)
            } else {
                res matches TreeStart::Single(s) && s == o
            },
        },
{
    match target {
        RemoteTarget::Root => TreeStart::Children(None),
        RemoteTarget::Object(o) => {
            if o.is_folder() {
                TreeStart::Children(Some(o.handle))
            } else {
                TreeStart::Single(o)
            }
        },
    }
}

/// Whether objects at `depth` are listed under the depth limit.
pub open spec fn within_depth(depth: int, max_depth: Option<usize>) -> bool {
    match max_depth {
        Some(m) => depth < m,
        None => true,
    }
}

/// Without a depth limit every depth is listed, so a walk without one descends into
/// every folder; with a limit `m`, exactly the depths below `m` are listed.
pub proof fn lemma_depth_limit(depth: int, max_depth: Option<usize>)
    ensures
        max_depth is None ==> within_depth(depth, max_depth),
        max_depth matches Some(m) ==> (within_depth(depth, max_depth) <==> depth < m),
{
}

/// A pending object of the walk: the object, its depth and the path of its folder.
pub struct PendingEntry {
    pub object: ObjectInfo,
    pub depth: usize,
    pub parent_path: String,
}

/// The depth-first walk of a tree listing: the objects still to visit (the last one
/// next) and the entries so far.
pub struct TreeWalk {
    pub stack: Vec<PendingEntry>,
    pub max_depth: Option<usize>,
    pub entries: Vec<TreeEntry>,
}

/// The abstract stack of a walk.
pub open spec fn tree_stack(w: TreeWalk) -> Seq<(ObjectInfo, usize, Seq<char>)> {
    w.stack@.map_values(|p: PendingEntry| (p.object, p.depth, p.parent_path@))
}

/// The invariant of a walk: every pending depth can still be increased.
pub open spec fn tree_walk_wf(w: TreeWalk) -> bool {
    forall|i: int| 0 <= i < w.stack@.len() ==> (#[trigger] w.stack@[i]).depth < usize::MAX
}

/// What the walk asks for after visiting an object.
pub enum TreeStep {
    /// Nothing is left.
    Done,
    /// An object was listed; nothing to fetch.
    Visited,
    /// A folder was listed; its children at `depth` under `path` are needed.
    Descend { handle: u32, depth: usize, path: String },
}

impl TreeWalk {
    /// A walk down to `max_depth` with nothing pending.
    pub fn new(max_depth: Option<usize>) -> (res: Self)
        ensures
            tree_stack(res).len() == 0,
            res.entries@.len() == 0,
            res.max_depth == max_depth,
            tree_walk_wf(res),
    {
        TreeWalk { stack: Vec::new(), max_depth, entries: Vec::new() }
    }

    /// Whether the listing goes down to `depth` at all.
    pub fn lists_depth(&self, depth: usize) -> (res: bool)
        ensures
            res == within_depth(depth as int, self.max_depth),
            self.max_depth is None ==> res,
            self.max_depth matches Some(m) ==> (res <==> depth < m),
    {
        match self.max_depth {
            Some(m) => depth < m,
            None => true,
        }
    }

    /// Adds the children of a folder at `depth` under `parent_path`, so that they are
    /// visited next, in listing order.
    pub fn push_children(&mut self, children: Vec<ObjectInfo>, depth: usize, parent_path: &str)
        requires
            tree_walk_wf(*old(self)),
            depth < usize::MAX,
        ensures
            tree_walk_wf(*final(self)),
            final(self).entries == old(self).entries,
            final(self).max_depth == old(self).max_depth,
            tree_stack(*final(self)) == tree_stack(*old(self)) + Seq::new(
                children@.len(),
                |i: int| (children@[children@.len() - 1 - i], depth, parent_path@),
            ),
    {
        let ghost start = tree_stack(*self);
        let ghost all = children@;
        let ghost added = Seq::new(all.len(), |i: int| (all[all.len() - 1 - i], depth, parent_path@));
        let mut rest = children;
        let n = rest.len();
        let mut k: usize = 0;
        while k < n
            invariant
                n == all.len(),
                k <= n,
                depth < usize::MAX,
                rest@ == all.take(n - k),
                tree_stack(*self) == start + added.take(k as int),
                tree_walk_wf(*self),
                self.entries == old(self).entries,
                self.max_depth == old(self).max_depth,
                added == Seq::new(all.len(), |i: int| (all[all.len() - 1 - i], depth, parent_path@)),
            decreases n - k,
        {
            let object = rest.pop().unwrap();
            assert(object == all[n - 1 - k]);
            assert(rest@ =~= all.take(n - k - 1));
            let ghost before = tree_stack(*self);
            self.stack.push(
                PendingEntry { object, depth, parent_path: String::from_str(parent_path) },
            );
            assert(tree_stack(*self) =~= before.push((object, depth, parent_path@)));
            assert(added.take(k + 1) =~= added.take(k as int).push((object, depth, parent_path@)));
            k += 1;
        }
        assert(added.take(n as int) =~= added);
    }

    /// Visits the next object: lists it at its path and depth, and asks for its
    /// children when it is a folder whose children are still within the depth limit.
    pub fn next(&mut self) -> (res: TreeStep)
        requires
            tree_walk_wf(*old(self)),
        ensures
            tree_walk_wf(*final(self)),
            final(self).max_depth == old(self).max_depth,
            tree_stack(*old(self)).len() == 0 ==> res is Done && final(self).entries
                == old(self).entries && tree_stack(*final(self)).len() == 0,
            tree_stack(*old(self)).len() > 0 ==> {
                let (o, d, parent) = tree_stack(*old(self)).last();
                let path = spec_join_remote_path(parent, o.filename@);
                &&& tree_stack(*final(self)) == tree_stack(*old(self)).drop_last()
                &&& final(self).entries@.len() == old(self).entries@.len() + 1
                &&& final(self).entries@.drop_last() == old(self).entries@
                &&& final(self).entries@.last().path@ == path
                &&& final(self).entries@.last().depth == d
                &&& remote_object_matches(final(self).entries@.last().object, o)
                &&& if is_folder_object(o) && within_depth(d + 1, old(self).max_depth) {
                    res matches TreeStep::Descend { handle, depth, path: p } && handle == o.handle
                        && depth == d + 1 && p@ == path
                } else {
                    res is Visited
                }
            },
            tree_stack(*old(self)).len() > 0 && old(self).max_depth is None ==> (res is Descend
                <==> is_folder_object(tree_stack(*old(self)).last().0)),
            tree_stack(*old(self)).len() > 0 ==> (old(self).max_depth matches Some(m) ==> (res is Descend
                <==> is_folder_object(tree_stack(*old(self)).last().0) && tree_stack(
                *old(self),
            ).last().1 + 1 < m)),
    {
        let ghost before = tree_stack(*self);
        let ghost entries_before = self.entries@;
        let pending = match self.stack.pop() {
            Some(p) => p,
            None => {
                return TreeStep::Done;
            },
        };
        assert(tree_stack(*self) =~= before.drop_last());
        assert(pending.depth < usize::MAX);
        let path = join_remote_path(pending.parent_path.as_str(), pending.object.filename.as_str());
        let depth = pending.depth;
        let folder = pending.object.is_folder();
        let descend = folder && match self.max_depth {
            Some(m) => depth + 1 < m,
            None => true,
        };
        let handle = pending.object.handle;
        self.entries.push(TreeEntry::from_object(path.clone(), depth, pending.object));
        assert(self.entries@.drop_last() =~= entries_before);
        if descend {
            TreeStep::Descend { handle, depth: depth + 1, path }
        } else {
            TreeStep::Visited
        }
    }

    /// The report once the walk is done.
    pub fn report(self, path: String, storage_id: u32) -> (res: TreeReport)
        ensures
            res.path == path,
            res.storage_id == storage_id,
            res.entries == self.entries,
    {
        TreeReport { path, storage_id, entries: self.entries }
    }
}

} // verus!

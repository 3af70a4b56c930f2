//! What the commands print besides JSON: labels, display names, and the orders a
//! listing can be shown in.
use vstd::prelude::*;

use crate::ls::LsEntry;
use crate::order::{SortOrder, equivalents, lemma_map_multiset, lex_lt, lex_lt_exec, lemma_lex_transitive, lemma_lex_trichotomy, sort_stable, sorted_by_order};
use crate::pull::PullStatus;
use crate::push::PushStatus;
use crate::remote::{
    ObjectKind, RemoteObject, lemma_listing_total, lemma_listing_trans, listing_le, listing_le_exec,
    name_listed_before, opt_str,
};
use crate::text::{chars_eq, chars_of, lowercase};

verus! {

/// How `tp7 ls` shows its listing.
#[derive(Debug, Clone, Copy)]
pub struct LsDisplayOptions {
    pub long: bool,
    pub ids: bool,
    pub size: bool,
    pub human_readable: bool,
    pub sort: LsSort,
    pub reverse: bool,
}

/// The orders `tp7 ls` can show a listing in.
#[derive(Debug, Clone, Copy, PartialEq, Eq, Structural)]
pub enum LsSort {
    /// The listing's own order.
    Name,
    /// Largest first.
    Size,
    /// Newest first.
    Time,
}

/// An optional value for display, `unknown` when absent.
pub fn display_opt(value: &Option<String>) -> (res: String)
    ensures
        res@ == match value {
            Some(v) => v@,
            None => "unknown"@,
        },
{
    match value {
        Some(v) => v.clone(),
        None => String::from_str("unknown"),
    }
}

/// The label of an object kind.
pub fn ls_kind_label(kind: &ObjectKind) -> (res: &'static str)
    ensures
        res@ == match kind {
            ObjectKind::File => "file"@,
            ObjectKind::Folder => "folder"@,
        },
{
    match kind {
        ObjectKind::File => "file",
        ObjectKind::Folder => "folder",
    }
}

/// How a name is shown: folders get a trailing `/`.
pub fn ls_display_name(name: &str, kind: &ObjectKind) -> (res: String)
    ensures
        res@ == match kind {
            ObjectKind::File => name@,
            ObjectKind::Folder => name@ + "/"@,
        },
{
    let mut s = String::from_str(name);
    if let ObjectKind::Folder = kind {
        s.append("/");
    }
    s
}

/// The label of a pull status.
pub fn pull_status_label(status: &PullStatus) -> (res: &'static str)
    ensures
        res@ == match status {
            PullStatus::Downloaded => "downloaded"@,
            PullStatus::DryRun => "would download"@,
            PullStatus::Skipped => "skipped"@,
        },
{
    match status {
        PullStatus::Downloaded => "downloaded",
        PullStatus::DryRun => "would download",
        PullStatus::Skipped => "skipped",
    }
}

/// The label of a push status.
pub fn push_status_label(status: &PushStatus) -> (res: &'static str)
    ensures
        res@ == match status {
            PushStatus::Uploaded => "uploaded"@,
            PushStatus::DryRun => "would upload"@,
        },
{
    match status {
        PushStatus::Uploaded => "uploaded",
        PushStatus::DryRun => "would upload",
    }
}

/// The order of optional texts: none first, then by text.
pub open spec fn opt_lt(a: Option<Seq<char>>, b: Option<Seq<char>>) -> bool {
    match (a, b) {
        (None, Some(_)) => true,
        (Some(x), Some(y)) => lex_lt(x, y),
        _ => false,
    }
}

proof fn lemma_opt_trichotomy(a: Option<Seq<char>>, b: Option<Seq<char>>)
    ensures
        a == b || opt_lt(a, b) || opt_lt(b, a),
        !(opt_lt(a, b) && opt_lt(b, a)),
        opt_lt(a, b) ==> a != b,
{
    if let (Some(x), Some(y)) = (a, b) {
        lemma_lex_trichotomy(x, y);
    }
}

proof fn lemma_opt_trans(a: Option<Seq<char>>, b: Option<Seq<char>>, c: Option<Seq<char>>)
    requires
        opt_lt(a, b),
        opt_lt(b, c),
    ensures
        opt_lt(a, c),
{
    if let (Some(x), Some(y), Some(z)) = (a, b, c) {
        lemma_lex_transitive(x, y, z);
    }
}

/// Entries ordered by size, largest first, then by lower-cased name and name.
pub struct BySize(pub LsEntry);

/// Entries ordered by modification time, newest (and timed before untimed) first,
/// then by lower-cased name and name.
pub struct ByTime(pub LsEntry);

/// Name order of two entries: by lower-cased name, then by name.
pub open spec fn names_le(a: RemoteObject, b: RemoteObject) -> bool {
    listing_le(0, lowercase(a.name@), a.name@, 0, lowercase(b.name@), b.name@)
}

impl SortOrder for BySize {
    open spec fn spec_le(&self, other: &Self) -> bool {
        listing_le(
            -(self.0.size as int),
            lowercase(self.0.name@),
            self.0.name@,
            -(other.0.size as int),
            lowercase(other.0.name@),
            other.0.name@,
        )
    }

    proof fn lemma_total(a: &Self, b: &Self) {
        lemma_listing_total(
            -(a.0.size as int),
            lowercase(a.0.name@),
            a.0.name@,
            -(b.0.size as int),
            lowercase(b.0.name@),
            b.0.name@,
        );
    }

    proof fn lemma_trans(a: &Self, b: &Self, c: &Self) {
        lemma_listing_trans(
            -(a.0.size as int),
            lowercase(a.0.name@),
            a.0.name@,
            -(b.0.size as int),
            lowercase(b.0.name@),
            b.0.name@,
            -(c.0.size as int),
            lowercase(c.0.name@),
            c.0.name@,
        );
    }

    fn le(&self, other: &Self) -> (res: bool) {
        if self.0.size > other.0.size {
            return true;
        }
        if self.0.size < other.0.size {
            return false;
        }
        listing_le_exec(0, self.0.name.as_str(), 0, other.0.name.as_str())
    }
}

impl SortOrder for ByTime {
    open spec fn spec_le(&self, other: &Self) -> bool {
        opt_lt(opt_str(other.0.modified), opt_str(self.0.modified)) || (opt_str(self.0.modified)
            == opt_str(other.0.modified) && names_le(self.0, other.0))
    }

    proof fn lemma_total(a: &Self, b: &Self) {
        lemma_opt_trichotomy(opt_str(a.0.modified), opt_str(b.0.modified));
        lemma_listing_total(
            0,
            lowercase(a.0.name@),
            a.0.name@,
            0,
            lowercase(b.0.name@),
            b.0.name@,
        );
    }

    proof fn lemma_trans(a: &Self, b: &Self, c: &Self) {
        let (ma, mb, mc) = (opt_str(a.0.modified), opt_str(b.0.modified), opt_str(c.0.modified));
        lemma_opt_trichotomy(ma, mb);
        lemma_opt_trichotomy(mb, mc);
        lemma_opt_trichotomy(ma, mc);
        if opt_lt(mb, ma) && opt_lt(mc, mb) {
            lemma_opt_trans(mc, mb, ma);
        }
        if ma == mb && mb == mc {
            lemma_listing_trans(
                0,
                lowercase(a.0.name@),
                a.0.name@,
                0,
                lowercase(b.0.name@),
                b.0.name@,
                0,
                lowercase(c.0.name@),
                c.0.name@,
            );
        }
    }

    fn le(&self, other: &Self) -> (res: bool) {
        let newer = opt_text_lt(&other.0.modified, &self.0.modified);
        if newer {
            return true;
        }
        if !opt_text_eq(&self.0.modified, &other.0.modified) {
            return false;
        }
        listing_le_exec(0, self.0.name.as_str(), 0, other.0.name.as_str())
    }
}

/// Compares optional texts: none first, then by text.
fn opt_text_lt(a: &Option<String>, b: &Option<String>) -> (res: bool)
    ensures
        res == opt_lt(opt_str(*a), opt_str(*b)),
{
    match (a, b) {
        (None, Some(_)) => true,
        (Some(x), Some(y)) => {
            let cx = chars_of(x.as_str());
            let cy = chars_of(y.as_str());
            lex_lt_exec(cx.as_slice(), cy.as_slice())
        },
        _ => false,
    }
}

/// Whether two optional texts are equal.
fn opt_text_eq(a: &Option<String>, b: &Option<String>) -> (res: bool)
    ensures
        res == (opt_str(*a) == opt_str(*b)),
{
    match (a, b) {
        (None, None) => true,
        (Some(x), Some(y)) => {
            let cx = chars_of(x.as_str());
            let cy = chars_of(y.as_str());
            chars_eq(cx.as_slice(), cy.as_slice())
        },
        _ => false,
    }
}

/// The entries wrapped for ordering by size.
fn wrap_size(entries: Vec<LsEntry>) -> (res: Vec<BySize>)
    ensures
        res@.len() == entries@.len(),
        forall|i: int| 0 <= i < res@.len() ==> (#[trigger] res@[i]).0 == entries@[i],
{
    let ghost all = entries@;
    let n = entries.len();
    let mut rest = entries;
    let mut out: Vec<BySize> = Vec::new();
    let mut i: usize = 0;
    while i < n
        invariant
            n == all.len(),
            i <= n,
            rest@ == all.subrange(i as int, n as int),
            out@.len() == i,
            forall|k: int| 0 <= k < i ==> (#[trigger] out@[k]).0 == all[k],
        decreases n - i,
    {
        let e = rest.remove(0);
        assert(e == all[i as int]);
        assert(rest@ =~= all.subrange(i + 1, n as int));
        out.push(BySize(e));
        i += 1;
    }
    out
}

/// The entries wrapped for ordering by time.
fn wrap_time(entries: Vec<LsEntry>) -> (res: Vec<ByTime>)
    ensures
        res@.len() == entries@.len(),
        forall|i: int| 0 <= i < res@.len() ==> (#[trigger] res@[i]).0 == entries@[i],
{
    let ghost all = entries@;
    let n = entries.len();
    let mut rest = entries;
    let mut out: Vec<ByTime> = Vec::new();
    let mut i: usize = 0;
    while i < n
        invariant
            n == all.len(),
            i <= n,
            rest@ == all.subrange(i as int, n as int),
            out@.len() == i,
            forall|k: int| 0 <= k < i ==> (#[trigger] out@[k]).0 == all[k],
        decreases n - i,
    {
        let e = rest.remove(0);
        assert(e == all[i as int]);
        assert(rest@ =~= all.subrange(i + 1, n as int));
        out.push(ByTime(e));
        i += 1;
    }
    out
}

/// Entries as they are compared when sorted by size.
pub open spec fn by_size(entries: Seq<LsEntry>) -> Seq<BySize> {
    entries.map_values(|x: LsEntry| BySize(x))
}

/// Entries as they are compared when sorted by time.
pub open spec fn by_time(entries: Seq<LsEntry>) -> Seq<ByTime> {
    entries.map_values(|x: LsEntry| ByTime(x))
}

/// Whether entries are in the order `sort` asks for.
pub open spec fn ls_sorted(entries: Seq<LsEntry>, sort: LsSort) -> bool {
    match sort {
        LsSort::Name => true,
        LsSort::Size => forall|i: int, j: int|
            0 <= i < j < entries.len() ==> BySize(entries[i]).spec_le(&BySize(entries[j])),
        LsSort::Time => forall|i: int, j: int|
            0 <= i < j < entries.len() ==> ByTime(entries[i]).spec_le(&ByTime(entries[j])),
    }
}

/// Whether `a` may come before `b` in a listing sorted by size: a larger file first;
/// equal sizes by lower-cased name, then by name.
pub open spec fn size_listed_before(a: LsEntry, b: LsEntry) -> bool {
    a.size > b.size || (a.size == b.size && name_listed_before(a.name@, b.name@))
}

/// Whether `a` may come before `b` in a listing sorted by time: an entry with a
/// modification time before one without; of two times, the later (greater as text)
/// first; equal times, or none on both, by lower-cased name, then by name.
pub open spec fn time_listed_before(a: LsEntry, b: LsEntry) -> bool {
    match (a.modified, b.modified) {
        (Some(x), None) => true,
        (None, Some(y)) => false,
        (Some(x), Some(y)) => lex_lt(y@, x@) || (x@ == y@ && name_listed_before(a.name@, b.name@)),
        (None, None) => name_listed_before(a.name@, b.name@),
    }
}

/// A listing sorted by size has larger files first, and one sorted by time has newer
/// files first, with names deciding only between equal sizes or equal times.
pub proof fn lemma_ls_sorted_order(entries: Seq<LsEntry>, sort: LsSort)
    requires
        ls_sorted(entries, sort),
    ensures
        sort == LsSort::Size ==> forall|i: int, j: int|
            0 <= i < j < entries.len() ==> size_listed_before(#[trigger] entries[i], #[trigger] entries[j]),
        sort == LsSort::Time ==> forall|i: int, j: int|
            0 <= i < j < entries.len() ==> time_listed_before(#[trigger] entries[i], #[trigger] entries[j]),
{
    if sort == LsSort::Size {
        assert forall|i: int, j: int| 0 <= i < j < entries.len() implies size_listed_before(
            #[trigger] entries[i],
            #[trigger] entries[j],
        ) by {
            assert(BySize(entries[i]).spec_le(&BySize(entries[j])));
        }
    }
    if sort == LsSort::Time {
        assert forall|i: int, j: int| 0 <= i < j < entries.len() implies time_listed_before(
            #[trigger] entries[i],
            #[trigger] entries[j],
        ) by {
            let (a, b) = (entries[i], entries[j]);
            assert(ByTime(a).spec_le(&ByTime(b)));
            lemma_opt_trichotomy(opt_str(a.modified), opt_str(b.modified));
        }
    }
}

/// Arranges a listing for display: unchanged for name order, otherwise sorted stably by
/// size or time.
pub fn sort_ls_entries(entries: &mut Vec<LsEntry>, sort: LsSort)
    ensures
        ls_sorted(final(entries)@, sort),
        sort == LsSort::Size ==> forall|i: int, j: int|
            0 <= i < j < final(entries)@.len() ==> size_listed_before(
                #[trigger] final(entries)@[i],
                #[trigger] final(entries)@[j],
            ),
        sort == LsSort::Time ==> forall|i: int, j: int|
            0 <= i < j < final(entries)@.len() ==> time_listed_before(
                #[trigger] final(entries)@[i],
                #[trigger] final(entries)@[j],
            ),
        final(entries)@.to_multiset() == old(entries)@.to_multiset(),
        sort == LsSort::Name ==> final(entries)@ == old(entries)@,
        sort == LsSort::Size ==> forall|e: LsEntry| #[trigger] equivalents(
            by_size(final(entries)@),
            BySize(e),
        ) == equivalents(by_size(old(entries)@), BySize(e)),
        sort == LsSort::Time ==> forall|e: LsEntry| #[trigger] equivalents(
            by_time(final(entries)@),
            ByTime(e),
        ) == equivalents(by_time(old(entries)@), ByTime(e)),
{
    match sort {
        LsSort::Name => {},
        LsSort::Size => {
            let mut taken: Vec<LsEntry> = Vec::new();
            std::mem::swap(entries, &mut taken);
            let mut wrapped = wrap_size(taken);
            let ghost pre = wrapped@;
            sort_stable(&mut wrapped);
            proof {
                vstd::seq_lib::to_multiset_len(wrapped@);
                vstd::seq_lib::to_multiset_len(pre);
            }
            let ghost sorted = wrapped@;
            let n = wrapped.len();
            let mut out: Vec<LsEntry> = Vec::new();
            let mut i: usize = 0;
            while i < n
                invariant
                    n == sorted.len(),
                    i <= n,
                    wrapped@ == sorted.subrange(i as int, n as int),
                    out@.len() == i,
                    forall|k: int| 0 <= k < i ==> #[trigger] out@[k] == sorted[k].0,
                decreases n - i,
            {
                let BySize(e) = wrapped.remove(0);
                assert(wrapped@ =~= sorted.subrange(i + 1, n as int));
                out.push(e);
                i += 1;
            }
            assert forall|a: int, b: int| 0 <= a < b < out@.len() implies BySize(out@[a]).spec_le(
                &BySize(out@[b]),
            ) by {
                assert(sorted[a].spec_le(&sorted[b]));
            }
            proof {
                let f = |w: BySize| w.0;
                assert(out@ =~= sorted.map_values(f));
                assert(old(entries)@ =~= pre.map_values(f));
                lemma_map_multiset(sorted, pre, f);
                assert(by_size(out@) =~= sorted);
                assert(by_size(old(entries)@) =~= pre);
                lemma_ls_sorted_order(out@, sort);
            }
            *entries = out;
        },
        LsSort::Time => {
            let mut taken: Vec<LsEntry> = Vec::new();
            std::mem::swap(entries, &mut taken);
            let mut wrapped = wrap_time(taken);
            let ghost pre = wrapped@;
            sort_stable(&mut wrapped);
            proof {
                vstd::seq_lib::to_multiset_len(wrapped@);
                vstd::seq_lib::to_multiset_len(pre);
            }
            let ghost sorted = wrapped@;
            let n = wrapped.len();
            let mut out: Vec<LsEntry> = Vec::new();
            let mut i: usize = 0;
            while i < n
                invariant
                    n == sorted.len(),
                    i <= n,
                    wrapped@ == sorted.subrange(i as int, n as int),
                    out@.len() == i,
                    forall|k: int| 0 <= k < i ==> #[trigger] out@[k] == sorted[k].0,
                decreases n - i,
            {
                let ByTime(e) = wrapped.remove(0);
                assert(wrapped@ =~= sorted.subrange(i + 1, n as int));
                out.push(e);
                i += 1;
            }
            assert forall|a: int, b: int| 0 <= a < b < out@.len() implies ByTime(out@[a]).spec_le(
                &ByTime(out@[b]),
            ) by {
                assert(sorted[a].spec_le(&sorted[b]));
            }
            proof {
                let f = |w: ByTime| w.0;
                assert(out@ =~= sorted.map_values(f));
                assert(old(entries)@ =~= pre.map_values(f));
                lemma_map_multiset(sorted, pre, f);
                assert(by_time(out@) =~= sorted);
                assert(by_time(old(entries)@) =~= pre);
                lemma_ls_sorted_order(out@, sort);
            }
            *entries = out;
        },
    }
}

} // verus!

//! Orderings used to sort listings, and a stable insertion sort over them.
use vstd::prelude::*;

verus! {

/// Lexicographic "strictly less" on character sequences, comparing code points; this
/// is the order `str`'s `Ord` gives, since UTF-8 preserves code point order.
pub open spec fn lex_lt(a: Seq<char>, b: Seq<char>) -> bool
    decreases a.len(),
{
    if a.len() == 0 {
        b.len() > 0
    } else if b.len() == 0 {
        false
    } else if a[0] < b[0] {
        true
    } else if a[0] == b[0] {
        lex_lt(a.drop_first(), b.drop_first())
    } else {
        false
    }
}

/// Lexicographic "less or equal".
pub open spec fn lex_le(a: Seq<char>, b: Seq<char>) -> bool {
    a == b || lex_lt(a, b)
}

/// No sequence is below itself.
pub proof fn lemma_lex_irreflexive(a: Seq<char>)
    ensures
        !lex_lt(a, a),
    decreases a.len(),
{
    if a.len() > 0 {
        lemma_lex_irreflexive(a.drop_first());
    }
}

/// Exactly one of `a < b`, `a == b`, `b < a` holds.
pub proof fn lemma_lex_trichotomy(a: Seq<char>, b: Seq<char>)
    ensures
        a == b || lex_lt(a, b) || lex_lt(b, a),
        !(lex_lt(a, b) && lex_lt(b, a)),
        lex_lt(a, b) ==> a != b,
    decreases a.len(),
{
    lemma_lex_irreflexive(a);
    if a.len() > 0 && b.len() > 0 {
        lemma_lex_trichotomy(a.drop_first(), b.drop_first());
        if a[0] == b[0] && a.drop_first() == b.drop_first() {
            assert(a =~= seq![a[0]] + a.drop_first());
            assert(b =~= seq![b[0]] + b.drop_first());
        }
    } else if a.len() == 0 && b.len() == 0 {
        assert(a =~= b);
    }
}

/// `<` on sequences is transitive.
pub proof fn lemma_lex_transitive(a: Seq<char>, b: Seq<char>, c: Seq<char>)
    requires
        lex_lt(a, b),
        lex_lt(b, c),
    ensures
        lex_lt(a, c),
    decreases a.len(),
{
    if a.len() > 0 && b.len() > 0 && c.len() > 0 && a[0] == b[0] && b[0] == c[0] {
        lemma_lex_transitive(a.drop_first(), b.drop_first(), c.drop_first());
    }
}

/// Compares two character slices lexicographically.
pub fn lex_lt_exec(a: &[char], b: &[char]) -> (res: bool)
    ensures
        res == lex_lt(a@, b@),
{
    let mut i: usize = 0;
    assert(a@.subrange(0, a@.len() as int) == a@);
    assert(b@.subrange(0, b@.len() as int) == b@);
    while i < a.len() && i < b.len()
        invariant
            i <= a@.len(),
            i <= b@.len(),
            lex_lt(a@, b@) == lex_lt(a@.subrange(i as int, a@.len() as int), b@.subrange(
                i as int,
                b@.len() as int,
            )),
        decreases a@.len() - i,
    {
        let ghost sa = a@.subrange(i as int, a@.len() as int);
        let ghost sb = b@.subrange(i as int, b@.len() as int);
        assert(sa[0] == a@[i as int] && sb[0] == b@[i as int]);
        if a[i] < b[i] {
            return true;
        }
        if a[i] != b[i] {
            return false;
        }
        assert(sa.drop_first() =~= a@.subrange(i + 1, a@.len() as int));
        assert(sb.drop_first() =~= b@.subrange(i + 1, b@.len() as int));
        i += 1;
    }
    let ghost sa = a@.subrange(i as int, a@.len() as int);
    let ghost sb = b@.subrange(i as int, b@.len() as int);
    if i < b.len() {
        assert(sa.len() == 0 && sb.len() > 0);
        true
    } else {
        assert(sb.len() == 0);
        false
    }
}

/// A total preorder that the stable sort arranges items by.
pub trait SortOrder: Sized {
    /// Whether `self` may stand before `other`.
    spec fn spec_le(&self, other: &Self) -> bool;

    /// Any two items are comparable.
    proof fn lemma_total(a: &Self, b: &Self)
        ensures
            a.spec_le(b) || b.spec_le(a),
    ;

    /// The order is transitive.
    proof fn lemma_trans(a: &Self, b: &Self, c: &Self)
        requires
            a.spec_le(b),
            b.spec_le(c),
        ensures
            a.spec_le(c),
    ;

    /// Whether `self` may stand before `other`.
    fn le(&self, other: &Self) -> (res: bool)
        ensures
            res == self.spec_le(other),
    ;
}

/// Whether `s` is arranged by the order.
pub open spec fn sorted_by_order<T: SortOrder>(s: Seq<T>) -> bool {
    forall|i: int, j: int| 0 <= i < j < s.len() ==> #[trigger] s[i].spec_le(&s[j])
}

/// Inserting an item where everything before is at most it, and the next item is at
/// least it, keeps a sorted sequence sorted.
proof fn lemma_insert_sorted<T: SortOrder>(before: Seq<T>, x: T, p: int)
    requires
        0 <= p <= before.len(),
        sorted_by_order(before),
        forall|k: int| 0 <= k < p ==> #[trigger] before[k].spec_le(&x),
        p < before.len() ==> x.spec_le(&before[p]),
    ensures
        sorted_by_order(before.insert(p, x)),
{
    let r = before.insert(p, x);
    before.insert_ensures(p, x);
    assert forall|i: int, j: int| 0 <= i < j < r.len() implies #[trigger] r[i].spec_le(&r[j]) by {
        if i < p && j == p {
        } else if i < p && j > p {
            assert(r[j] == before[j - 1]);
        } else if i == p {
            assert(r[j] == before[j - 1]);
            if j - 1 > p {
                assert(before[p].spec_le(&before[j - 1]));
                T::lemma_trans(&x, &before[p], &before[j - 1]);
            }
        } else if i > p {
            assert(r[i] == before[i - 1]);
            assert(r[j] == before[j - 1]);
        }
    }
}

/// Whether two items are equivalent under the order: each may stand before the other.
pub open spec fn equivalent<T: SortOrder>(a: T, b: T) -> bool {
    a.spec_le(&b) && b.spec_le(&a)
}

/// The items of `s` equivalent to `e`, in their order in `s`.
pub open spec fn equivalents<T: SortOrder>(s: Seq<T>, e: T) -> Seq<T> {
    s.filter(|y: T| equivalent(y, e))
}

/// Inserting `x` after every item at most it and before every item that is not keeps
/// the items equivalent to any `e` in the order of the items placed so far.
proof fn lemma_insert_stable<T: SortOrder>(before: Seq<T>, prefix: Seq<T>, x: T, p: int)
    requires
        0 <= p <= before.len(),
        forall|k: int| p <= k < before.len() ==> !(#[trigger] before[k]).spec_le(&x),
        forall|e: T| #[trigger] equivalents(before, e) == equivalents(prefix, e),
    ensures
        forall|e: T| #[trigger] equivalents(before.insert(p, x), e) == equivalents(prefix.push(x), e),
{
    assert forall|e: T| #[trigger] equivalents(before.insert(p, x), e) == equivalents(prefix.push(x), e) by {
        let pred = |y: T| equivalent(y, e);
        let a = before.take(p);
        let b = before.skip(p);
        assert(before.insert(p, x) =~= a.push(x) + b);
        assert(before =~= a + b);
        Seq::filter_distributes_over_add(a.push(x), b, pred);
        Seq::filter_distributes_over_add(a, b, pred);
        a.lemma_filter_push(x, pred);
        prefix.lemma_filter_push(x, pred);
        assert(equivalents(before, e) == before.filter(pred));
        assert(equivalents(prefix, e) == prefix.filter(pred));
        if pred(x) {
            if b.filter(pred).len() > 0 {
                let y = b.filter(pred)[0];
                b.filter_lemma(pred);
                assert(b.filter(pred).contains(y));
                b.lemma_filter_contains_rev(pred, y);
                let k = choose|k: int| 0 <= k < b.len() && b[k] == y;
                assert(before[p + k] == y);
                T::lemma_trans(&y, &e, &x);
            }
            assert(b.filter(pred) =~= Seq::<T>::empty());
        }
    }
}

/// Sorts `items` by `T`'s order, keeping equal items in their original order
/// (insertion sort).
pub fn sort_stable<T: SortOrder>(items: &mut Vec<T>)
    ensures
        final(items)@.to_multiset() == old(items)@.to_multiset(),
        sorted_by_order(final(items)@),
        forall|e: T| #[trigger] equivalents(final(items)@, e) == equivalents(old(items)@, e),
{
    broadcast use vstd::seq_lib::group_to_multiset_ensures;

    let mut input: Vec<T> = Vec::new();
    std::mem::swap(items, &mut input);
    let ghost original = input@;
    let mut result: Vec<T> = Vec::new();
    let n = input.len();
    let mut rest = input;
    // `rest` keeps the items not yet placed, in original order.
    while rest.len() > 0
        invariant
            original.len() == n,
            rest@.len() + result@.len() == n,
            rest@ == original.subrange(n - rest@.len(), n as int),
            result@.to_multiset() == original.subrange(0, n - rest@.len()).to_multiset(),
            sorted_by_order(result@),
            forall|e: T| #[trigger] equivalents(result@, e) == equivalents(
                original.subrange(0, n - rest@.len()),
                e,
            ),
        decreases rest@.len(),
    {
        let ghost before = result@;
        let ghost consumed = n - rest@.len();
        let x = rest.remove(0);
        let mut p: usize = 0;
        while p < result.len() && result[p].le(&x)
            invariant
                p <= result@.len(),
                result@ == before,
                forall|k: int| 0 <= k < p ==> #[trigger] result@[k].spec_le(&x),
            decreases result@.len() - p,
        {
            p += 1;
        }
        proof {
            if p < result@.len() {
                T::lemma_total(&result@[p as int], &x);
                assert(x.spec_le(&result@[p as int]));
                assert forall|k: int| p <= k < before.len() implies !(#[trigger] before[k]).spec_le(
                    &x,
                ) by {
                    if k > p && before[k].spec_le(&x) {
                        T::lemma_trans(&before[p as int], &before[k], &x);
                    }
                }
            }
            lemma_insert_stable(before, original.subrange(0, consumed), x, p as int);
        }
        result.insert(p, x);
        proof {
            lemma_insert_sorted(before, x, p as int);
            vstd::seq_lib::to_multiset_insert(before, p as int, x);
            assert(result@ == before.insert(p as int, x));
            assert(result@.to_multiset() == before.to_multiset().insert(x));
            vstd::seq_lib::to_multiset_build(original.subrange(0, consumed), x);
            assert(original.subrange(0, consumed + 1) =~= original.subrange(0, consumed).push(x));
            assert(rest@ =~= original.subrange(consumed + 1, n as int));
        }
    }
    assert(original.subrange(0, n as int) =~= original);
    std::mem::swap(items, &mut result);
}

/// Mapping two sequences with the same elements gives sequences with the same
/// elements.
pub proof fn lemma_map_multiset<A, B>(s1: Seq<A>, s2: Seq<A>, f: spec_fn(A) -> B)
    requires
        s1.to_multiset() == s2.to_multiset(),
    ensures
        s1.map_values(f).to_multiset() == s2.map_values(f).to_multiset(),
    decreases s1.len(),
{
    broadcast use vstd::seq_lib::group_to_multiset_ensures;

    vstd::seq_lib::to_multiset_len(s1);
    vstd::seq_lib::to_multiset_len(s2);
    if s1.len() == 0 {
        assert(s1.map_values(f) =~= Seq::<B>::empty());
        assert(s2.map_values(f) =~= Seq::<B>::empty());
    } else {
        let x = s1.last();
        let r1 = s1.drop_last();
        assert(s1 =~= r1.push(x));
        vstd::seq_lib::to_multiset_build(r1, x);
        assert(s1.to_multiset().count(x) > 0);
        vstd::seq_lib::to_multiset_contains(s2, x);
        let j = choose|j: int| 0 <= j < s2.len() && s2[j] == x;
        let r2 = s2.remove(j);
        vstd::seq_lib::to_multiset_remove(s2, j);
        assert(r1.to_multiset() =~= s1.to_multiset().remove(x));
        assert(r2.to_multiset() =~= s2.to_multiset().remove(x));
        lemma_map_multiset(r1, r2, f);
        assert(s1.map_values(f) =~= r1.map_values(f).push(f(x)));
        vstd::seq_lib::to_multiset_build(r1.map_values(f), f(x));
        assert(s2 =~= r2.insert(j, x));
        assert(s2.map_values(f) =~= r2.map_values(f).insert(j, f(x)));
        vstd::seq_lib::to_multiset_insert(r2.map_values(f), j, f(x));
    }
}

} // verus!

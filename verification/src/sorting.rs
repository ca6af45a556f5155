//! A stable sort with an exact functional contract: the result is pinned to
//! `stable_sort`, the insertion-sort function on sequences, so equal keys
//! keep their original order.

use vstd::prelude::*;

verus! {

/// Inserts `x`, taken to come after every element of `s`, directly after the
/// last element that sorts at or before it.
pub open spec fn stable_insert<A>(s: Seq<A>, x: A, le: spec_fn(A, A) -> bool) -> Seq<A>
    decreases s.len(),
{
    if s.len() == 0 {
        seq![x]
    } else if le(s.last(), x) {
        s.push(x)
    } else {
        stable_insert(s.drop_last(), x, le).push(s.last())
    }
}

/// The stable sort of `s` under `le`: elements are inserted one by one in
/// their original order.
pub open spec fn stable_sort<A>(s: Seq<A>, le: spec_fn(A, A) -> bool) -> Seq<A>
    decreases s.len(),
{
    if s.len() == 0 {
        Seq::empty()
    } else {
        stable_insert(stable_sort(s.drop_last(), le), s.last(), le)
    }
}

/// The views of the elements of a sequence.
pub open spec fn views<T: View>(s: Seq<T>) -> Seq<T::V> {
    s.map_values(|t: T| t@)
}

pub broadcast proof fn lemma_views_len<T: View>(s: Seq<T>)
    ensures
        #[trigger] views(s).len() == s.len(),
{
}

pub broadcast proof fn lemma_views_index<T: View>(s: Seq<T>, i: int)
    requires
        0 <= i < s.len(),
    ensures
        #[trigger] views(s)[i] == s[i]@,
{
}

pub broadcast proof fn lemma_views_push<T: View>(s: Seq<T>, x: T)
    ensures
        #[trigger] views(s.push(x)) == views(s).push(x@),
{
    assert(views(s.push(x)) =~= views(s).push(x@));
}

pub broadcast proof fn lemma_views_add<T: View>(a: Seq<T>, b: Seq<T>)
    ensures
        #[trigger] views(a + b) == views(a) + views(b),
{
    assert(views(a + b) =~= views(a) + views(b));
}

pub broadcast group group_views_lemmas {
    lemma_views_len,
    lemma_views_index,
    lemma_views_push,
    lemma_views_add,
}

/// The order a `SortItem` type sorts by, as a single function value.
pub open spec fn le_fn<T: SortItem>() -> spec_fn(T::V, T::V) -> bool {
    |a: T::V, b: T::V| T::sp_le(a, b)
}

/// An element type ordered by a relation on its views, decided executably.
pub trait SortItem: View + Sized {
    spec fn sp_le(a: Self::V, b: Self::V) -> bool;

    fn le(&self, other: &Self) -> (r: bool)
        ensures
            r == Self::sp_le(self@, other@),
    ;
}

pub proof fn lemma_stable_insert_len<A>(s: Seq<A>, x: A, le: spec_fn(A, A) -> bool)
    ensures
        stable_insert(s, x, le).len() == s.len() + 1,
    decreases s.len(),
{
    if s.len() > 0 && !le(s.last(), x) {
        lemma_stable_insert_len(s.drop_last(), x, le);
    }
}

/// A stable sort keeps the length of its input.
pub proof fn lemma_stable_sort_len<A>(s: Seq<A>, le: spec_fn(A, A) -> bool)
    ensures
        stable_sort(s, le).len() == s.len(),
    decreases s.len(),
{
    if s.len() > 0 {
        lemma_stable_sort_len(s.drop_last(), le);
        lemma_stable_insert_len(stable_sort(s.drop_last(), le), s.last(), le);
    }
}

/// `s` is ordered, non-decreasingly, under `le`.
pub open spec fn sp_sorted_by<A>(s: Seq<A>, le: spec_fn(A, A) -> bool) -> bool {
    forall|i: int, j: int| 0 <= i < j < s.len() ==> le(#[trigger] s[i], #[trigger] s[j])
}

proof fn lemma_stable_insert_elems<A>(s: Seq<A>, x: A, le: spec_fn(A, A) -> bool)
    ensures
        forall|i: int|
            0 <= i < stable_insert(s, x, le).len() ==> (#[trigger] stable_insert(s, x, le)[i]) == x
                || s.contains(stable_insert(s, x, le)[i]),
    decreases s.len(),
{
    if s.len() > 0 && !le(s.last(), x) {
        lemma_stable_insert_elems(s.drop_last(), x, le);
        assert forall|i: int|
            0 <= i < stable_insert(s, x, le).len() implies (#[trigger] stable_insert(s, x, le)[i])
            == x || s.contains(stable_insert(s, x, le)[i]) by {
            if i < stable_insert(s, x, le).len() - 1 {
                let e = stable_insert(s.drop_last(), x, le)[i];
                if e != x {
                    let j = choose|j: int|
                        0 <= j < s.drop_last().len() && s.drop_last()[j] == e;
                    assert(s[j] == e);
                }
            } else {
                assert(s[s.len() - 1] == s.last());
            }
        }
    }
}

proof fn lemma_stable_insert_sorted<A>(s: Seq<A>, x: A, le: spec_fn(A, A) -> bool)
    requires
        sp_sorted_by(s, le),
        forall|p: A, q: A| #[trigger] le(p, q) || le(q, p),
        forall|p: A, q: A, r: A| #[trigger] le(p, q) && #[trigger] le(q, r) ==> le(p, r),
    ensures
        sp_sorted_by(stable_insert(s, x, le), le),
    decreases s.len(),
{
    if s.len() == 0 {
    } else if le(s.last(), x) {
        assert forall|i: int, j: int|
            0 <= i < j < s.push(x).len() implies le(#[trigger] s.push(x)[i], #[trigger] s.push(x)[j]) by {
            if j == s.len() {
                if i < s.len() - 1 {
                    assert(le(s[i], s[s.len() - 1]));
                    assert(le(s[s.len() - 1], x));
                }
            }
        }
    } else {
        assert(sp_sorted_by(s.drop_last(), le));
        lemma_stable_insert_sorted(s.drop_last(), x, le);
        lemma_stable_insert_elems(s.drop_last(), x, le);
        let ri = stable_insert(s.drop_last(), x, le);
        let r = ri.push(s.last());
        assert(le(x, s.last()));
        assert forall|i: int, j: int|
            0 <= i < j < r.len() implies le(#[trigger] r[i], #[trigger] r[j]) by {
            if j == r.len() - 1 {
                let e = ri[i];
                if e == x {
                    assert(le(e, s.last()));
                } else {
                    let k = choose|k: int|
                        0 <= k < s.drop_last().len() && s.drop_last()[k] == e;
                    assert(s[k] == e);
                    assert(le(s[k], s[s.len() - 1]));
                }
            }
        }
    }
}

/// Law: a stable sort under a total, transitive order yields an ordered
/// sequence.
pub proof fn lemma_stable_sort_sorted<A>(s: Seq<A>, le: spec_fn(A, A) -> bool)
    requires
        forall|p: A, q: A| #[trigger] le(p, q) || le(q, p),
        forall|p: A, q: A, r: A| #[trigger] le(p, q) && #[trigger] le(q, r) ==> le(p, r),
    ensures
        sp_sorted_by(stable_sort(s, le), le),
    decreases s.len(),
{
    if s.len() > 0 {
        lemma_stable_sort_sorted(s.drop_last(), le);
        lemma_stable_insert_sorted(stable_sort(s.drop_last(), le), s.last(), le);
    }
}

proof fn lemma_stable_insert_at<A>(s: Seq<A>, x: A, le: spec_fn(A, A) -> bool, p: int)
    requires
        0 <= p <= s.len(),
        forall|j: int| p <= j < s.len() ==> !le(#[trigger] s[j], x),
        p > 0 ==> le(s[p - 1], x),
    ensures
        stable_insert(s, x, le) =~= s.take(p) + seq![x] + s.skip(p),
    decreases s.len(),
{
    if s.len() == 0 {
    } else if le(s.last(), x) {
        assert(p == s.len());
        assert(s.push(x) =~= s.take(p) + seq![x] + s.skip(p));
    } else {
        assert(p < s.len());
        assert(forall|j: int| p <= j < s.len() - 1 ==> !le(#[trigger] s.drop_last()[j], x));
        lemma_stable_insert_at(s.drop_last(), x, le, p);
        assert(stable_insert(s.drop_last(), x, le).push(s.last()) =~= s.take(p) + seq![x]
            + s.skip(p));
    }
}

/// Sorts the items stably by their order, returning exactly the stable sort
/// of the input.
pub fn sort_items<T: SortItem>(v: Vec<T>) -> (r: Vec<T>)
    ensures
        views(r@) == stable_sort(views(v@), le_fn::<T>()),
{
    let ghost orig: Seq<T::V> = views(v@);
    let mut input = v;
    let mut out: Vec<T> = Vec::new();
    let ghost i: int = 0;
    proof {
        assert(views(out@) =~= stable_sort(orig.take(0), le_fn::<T>()));
        assert(views(input@) =~= orig.skip(0));
    }
    while input.len() > 0
        invariant
            0 <= i <= orig.len(),
            input@.len() == orig.len() - i,
            views(input@) =~= orig.skip(i),
            views(out@) == stable_sort(orig.take(i), le_fn::<T>()),
        decreases input@.len(),
    {
        let ghost pre = input@;
        let x = input.remove(0);
        proof {
            assert(x@ == views(pre)[0]);
            assert(x@ == orig[i]);
            assert(views(input@) =~= views(pre).drop_first());
            assert(views(input@) =~= orig.skip(i + 1));
        }
        let mut p: usize = out.len();
        while p > 0 && !out[p - 1].le(&x)
            invariant
                0 <= p <= out@.len(),
                forall|j: int| p <= j < out@.len() ==> !le_fn::<T>()(
                    #[trigger] views(out@)[j],
                    x@,
                ),
            decreases p,
        {
            p = p - 1;
        }
        proof {
            assert(p > 0 ==> le_fn::<T>()(views(out@)[p - 1], x@));
            lemma_stable_insert_at(views(out@), x@, le_fn::<T>(), p as int);
        }
        let ghost old_out = out@;
        out.insert(p, x);
        proof {
            assert(views(out@) =~= views(old_out).take(p as int) + seq![x@] + views(
                old_out,
            ).skip(p as int));
            assert(orig.take(i + 1).drop_last() =~= orig.take(i));
            assert(orig.take(i + 1).last() == x@);
            assert(views(out@) == stable_sort(orig.take(i + 1), le_fn::<T>()));
        }
        proof {
            i = i + 1;
            assert(views(input@) =~= orig.skip(i));
        }
    }
    proof {
        assert(orig.take(orig.len() as int) =~= orig);
    }
    out
}

} // verus!

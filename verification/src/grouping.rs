//! Grouping by adjacency: a maximal run of adjacent records sharing one
//! group key becomes one word group. After sorting by sort key such runs are
//! exactly the groups a full key-indexed grouping would build; the laws at
//! the end of this module say when.

use crate::stardict::StarDictPaliWord;
use vstd::prelude::*;

verus! {

broadcast use crate::sorting::group_views_lemmas;

/// The element sequences of a sequence of vectors.
pub open spec fn run_views<T>(r: Seq<Vec<T>>) -> Seq<Seq<T>> {
    r.map_values(|v: Vec<T>| v@)
}

/// The partition of a record stream into maximal adjacent runs sharing one
/// group key, in stream order.
pub open spec fn group_runs<T: StarDictPaliWord>(s: Seq<T>) -> Seq<Seq<T>>
    decreases s.len(),
{
    if s.len() == 0 {
        Seq::empty()
    } else {
        let prev = group_runs(s.drop_last());
        if s.len() == 1 || s[s.len() - 2].sp_group_id() != s.last().sp_group_id() {
            prev.push(seq![s.last()])
        } else {
            prev.update(prev.len() - 1, prev.last().push(s.last()))
        }
    }
}

/// The structure of the adjacency partition: runs are non-empty and
/// homogeneous in their group key, adjacent runs have different group keys,
/// and the runs flatten back to the stream.
pub proof fn lemma_group_runs<T: StarDictPaliWord>(s: Seq<T>)
    ensures
        group_runs(s).len() <= s.len(),
        s.len() > 0 ==> group_runs(s).len() >= 1,
        s.len() > 0 ==> group_runs(s).last().len() >= 1 && group_runs(s).last().last() == s.last(),
        forall|i: int| 0 <= i < group_runs(s).len() ==> (#[trigger] group_runs(s)[i]).len() >= 1,
        group_runs(s).flatten() == s,
        forall|i: int, j: int|
            0 <= i < group_runs(s).len() && 0 <= j < group_runs(s)[i].len() ==> (
            #[trigger] group_runs(s)[i][j]).sp_group_id() == group_runs(s)[i][0].sp_group_id(),
        forall|i: int|
            0 <= i < group_runs(s).len() - 1 ==> (#[trigger] group_runs(s)[i])[0].sp_group_id()
                != group_runs(s)[i + 1][0].sp_group_id(),
    decreases s.len(),
{
    if s.len() == 0 {
        assert(group_runs(s).flatten() =~= s);
    } else {
        let d = s.drop_last();
        let prev = group_runs(d);
        let x = s.last();
        lemma_group_runs(d);
        if s.len() == 1 || s[s.len() - 2].sp_group_id() != x.sp_group_id() {
            let runs = prev.push(seq![x]);
            assert(group_runs(s) == runs);
            Seq::lemma_flatten_push(prev, seq![x]);
            assert(runs.flatten() =~= s);
            if s.len() > 1 {
                assert(prev.last().last() == d.last());
                assert(d.last() == s[s.len() - 2]);
                assert(prev.last()[0].sp_group_id() == prev.last().last().sp_group_id());
                assert(runs[runs.len() - 2] == prev.last());
            }
            assert(forall|i: int, j: int|
                0 <= i < runs.len() && 0 <= j < runs[i].len() ==> (
                #[trigger] runs[i][j]).sp_group_id() == runs[i][0].sp_group_id());
        } else {
            let k = prev.len() - 1;
            let nr = prev.last().push(x);
            let runs = prev.update(k, nr);
            assert(group_runs(s) == runs);
            assert(runs =~= prev.drop_last().push(nr));
            assert(prev =~= prev.drop_last().push(prev.last()));
            Seq::lemma_flatten_push(prev.drop_last(), nr);
            Seq::lemma_flatten_push(prev.drop_last(), prev.last());
            assert(prev.drop_last().push(prev.last()).flatten() == prev.drop_last().flatten()
                + prev.last());
            assert(prev.drop_last().flatten() + prev.last() == d);
            assert(runs.flatten() == prev.drop_last().flatten() + nr);
            assert(prev.drop_last().flatten() + nr =~= (prev.drop_last().flatten()
                + prev.last()).push(x));
            assert(d.push(x) =~= s);
            assert(runs.flatten() =~= s);
            assert(runs.last() == nr);
            assert(nr.last() == x);
            assert(prev.last().last() == d.last());
            assert(x.sp_group_id() == prev.last().last().sp_group_id());
            assert(x.sp_group_id() == prev.last()[0].sp_group_id());
            assert(forall|i: int, j: int|
                0 <= i < runs.len() && 0 <= j < runs[i].len() ==> (
                #[trigger] runs[i][j]).sp_group_id() == runs[i][0].sp_group_id()) by {
                assert(forall|j: int| 0 <= j < nr.len() ==> (#[trigger] nr[j]).sp_group_id()
                    == nr[0].sp_group_id());
                assert(forall|i: int| 0 <= i < runs.len() - 1 ==> runs[i] == prev[i]);
            }
            assert(forall|i: int|
                0 <= i < runs.len() - 1 ==> (#[trigger] runs[i])[0].sp_group_id() != runs[i
                    + 1][0].sp_group_id()) by {
                assert(forall|i: int| 0 <= i < runs.len() - 1 ==> runs[i] == prev[i]);
                assert(runs[k][0] == prev[k][0]);
            }
        }
    }
}

/// Partitions the records into maximal adjacent runs sharing one group key.
pub fn split_groups<T: StarDictPaliWord>(words: Vec<T>) -> (r: Vec<Vec<T>>)
    ensures
        run_views(r@) == group_runs(words@),
{
    let ghost all = words@;
    let mut input = words;
    let mut out: Vec<Vec<T>> = Vec::new();
    let mut cur: Vec<T> = Vec::new();
    let ghost i: int = 0;
    proof {
        assert(all.take(0) =~= Seq::<T>::empty());
        assert(input@ =~= all.skip(0));
        assert(run_views(out@) =~= Seq::<Seq<T>>::empty());
    }
    while input.len() > 0
        invariant
            0 <= i <= all.len(),
            input@.len() == all.len() - i,
            input@ =~= all.skip(i),
            i == 0 ==> cur@.len() == 0 && out@.len() == 0,
            i > 0 ==> cur@.len() > 0 && cur@.last() == all[i - 1],
            group_runs(all.take(i)) == if cur@.len() > 0 {
                run_views(out@).push(cur@)
            } else {
                run_views(out@)
            },
        decreases input@.len(),
    {
        let ghost pre = input@;
        let x = input.remove(0);
        let ghost xg = x;
        proof {
            assert(xg == all[i]);
            assert(input@ =~= all.skip(i + 1));
            assert(all.take(i + 1).drop_last() =~= all.take(i));
            assert(all.take(i + 1).last() == all[i]);
        }
        if cur.len() == 0 {
            cur.push(x);
            proof {
                assert(group_runs(all.take(i + 1)) == group_runs(all.take(i)).push(seq![xg]));
                assert(cur@ =~= seq![xg]);
                assert(group_runs(all.take(i + 1)) == run_views(out@).push(cur@));
            }
        } else {
            let same = cur[cur.len() - 1].group_id() == x.group_id();
            proof {
                assert(all.take(i + 1)[i - 1] == all[i - 1]);
                assert(same == (all[i - 1].sp_group_id() == xg.sp_group_id()));
            }
            if same {
                let ghost cur_pre = cur@;
                cur.push(x);
                proof {
                    let prev = group_runs(all.take(i));
                    assert(group_runs(all.take(i + 1)) == prev.update(
                        prev.len() - 1,
                        prev.last().push(xg),
                    ));
                    assert(prev == run_views(out@).push(cur_pre));
                    assert(prev.last() == cur_pre);
                    assert(prev.update(prev.len() - 1, cur_pre.push(xg)) =~= run_views(
                        out@,
                    ).push(cur_pre.push(xg)));
                    assert(group_runs(all.take(i + 1)) == run_views(out@).push(cur@));
                }
            } else {
                let ghost cur_pre = cur@;
                let ghost out_pre = out@;
                out.push(cur);
                cur = Vec::new();
                cur.push(x);
                proof {
                    let prev = group_runs(all.take(i));
                    assert(group_runs(all.take(i + 1)) == prev.push(seq![xg]));
                    assert(run_views(out@) =~= run_views(out_pre).push(cur_pre));
                    assert(run_views(out@) == prev);
                    assert(cur@ =~= seq![xg]);
                    assert(group_runs(all.take(i + 1)) == run_views(out@).push(cur@));
                }
            }
        }
        proof {
            i = i + 1;
        }
    }
    proof {
        assert(all.take(i) =~= all);
    }
    if cur.len() > 0 {
        let ghost out_pre = out@;
        let ghost cur_g = cur@;
        out.push(cur);
        proof {
            assert(run_views(out@) =~= run_views(out_pre).push(cur_g));
        }
    }
    out
}

/// A group key made of a single word: every character sits above the space
/// character, so no space and no control character.
pub open spec fn sp_word_like(g: Seq<char>) -> bool {
    forall|i: int| 0 <= i < g.len() ==> (#[trigger] g[i]) as u32 > 32
}

/// Every record's keys are derived from its headword by the key-derivation
/// rules of this crate.
pub open spec fn sp_keys_derived<T: StarDictPaliWord>(s: Seq<T>) -> bool {
    forall|k: int|
        0 <= k < s.len() ==> (#[trigger] s[k]).sp_sort_key() == crate::keys::sp_sort_key(
            s[k].sp_id(),
        ) && s[k].sp_group_id() == crate::keys::sp_group_key(s[k].sp_id())
}

/// The stream is sorted, non-decreasingly, by sort key in raw lexicographic
/// order.
pub open spec fn sp_sorted_by_sort_key<T: StarDictPaliWord>(s: Seq<T>) -> bool {
    forall|i: int, j: int|
        0 <= i < j < s.len() ==> crate::strutil::sp_str_le(
            (#[trigger] s[i]).sp_sort_key(),
            (#[trigger] s[j]).sp_sort_key(),
        )
}

/// A sort key sandwiched between two sort keys of group `g` belongs to a
/// record of group `g`, provided group keys are single words.
proof fn lemma_middle_group(
    g: Seq<char>,
    ski: Seq<char>,
    skk: Seq<char>,
    skj: Seq<char>,
    gk: Seq<char>,
)
    requires
        crate::keys::sp_key_shape(g, ski),
        crate::keys::sp_key_shape(g, skj),
        crate::keys::sp_key_shape(gk, skk),
        sp_word_like(g),
        sp_word_like(gk),
        crate::strutil::sp_str_le(ski, skk),
        crate::strutil::sp_str_le(skk, skj),
    ensures
        gk == g,
{
    let ai = ski.skip(g.len() as int);
    let aj = skj.skip(g.len() as int);
    assert(ski =~= g + ai);
    assert(skj =~= g + aj);
    crate::strutil::lemma_str_le_sandwich_prefix(g, ai, aj, skk);
    let rest = skk.skip(g.len() as int);
    assert(skk =~= g + rest);
    crate::strutil::lemma_str_cmp_prefix_reduce(g, rest, aj);
    assert(crate::strutil::sp_str_le(rest, aj));
    let ak = skk.skip(gk.len() as int);
    assert(skk =~= gk + ak);
    if rest.len() == 0 {
        // skk is exactly g; a group key shaped as g plus a space would put a
        // space inside the word-like g.
        assert(skk == g);
        if skk.len() > gk.len() {
            assert(skk[gk.len() as int] == ' ');
            assert(g[gk.len() as int] as u32 > 32);
            assert(false);
        }
        assert(gk =~= g);
    } else {
        if aj.len() == 0 {
            assert(crate::strutil::sp_str_cmp(rest, aj) == core::cmp::Ordering::Greater);
            assert(false);
        }
        assert(skj.len() > g.len());
        assert(aj[0] == skj[g.len() as int]);
        assert(aj[0] == ' ');
        // rest may not start above the space character, else it would sort
        // after every ` ddd` suffix.
        if rest[0] as u32 > 32 {
            assert(crate::strutil::sp_str_cmp(rest, aj) == core::cmp::Ordering::Greater);
            assert(false);
        }
        let pos0 = g.len() as int;
        assert(skk[pos0] == rest[0]);
        if pos0 < gk.len() {
            assert(skk[pos0] == gk[pos0]);
            assert(gk[pos0] as u32 > 32);
            assert(false);
        }
        if pos0 > gk.len() {
            assert(skk.len() > gk.len());
            assert(skk.len() >= gk.len() + 2 && skk[gk.len() as int] == ' ');
            assert(crate::strutil::is_digit(skk[pos0]));
            assert(skk[pos0] as u32 >= 48);
            assert(false);
        }
        assert(pos0 == gk.len());
        assert(skk.take(gk.len() as int) == gk);
        assert(skk.take(g.len() as int) == g);
        assert(gk == g);
    }
}

/// Law (contiguity): in a stream whose keys are derived by this crate's
/// rules, pre-sorted by sort key, with word-like group keys, any record
/// standing between two records of one group belongs to that group.
pub proof fn lemma_sorted_grouping_contiguous<T: StarDictPaliWord>(s: Seq<T>, i: int, k: int, j: int)
    requires
        sp_keys_derived(s),
        sp_sorted_by_sort_key(s),
        forall|m: int| 0 <= m < s.len() ==> sp_word_like((#[trigger] s[m]).sp_group_id()),
        0 <= i <= k <= j < s.len(),
        s[i].sp_group_id() == s[j].sp_group_id(),
    ensures
        s[k].sp_group_id() == s[i].sp_group_id(),
{
    crate::keys::lemma_key_shape(s[i].sp_id());
    crate::keys::lemma_key_shape(s[j].sp_id());
    crate::keys::lemma_key_shape(s[k].sp_id());
    if i < k && k < j {
        lemma_middle_group(
            s[i].sp_group_id(),
            s[i].sp_sort_key(),
            s[k].sp_sort_key(),
            s[j].sp_sort_key(),
            s[k].sp_group_id(),
        );
    }
}

/// Where the run at position `a` starts in the stream.
pub open spec fn run_offset<T: StarDictPaliWord>(s: Seq<T>, a: int) -> int {
    group_runs(s).take(a).flatten().len() as int
}

proof fn lemma_run_positions<T: StarDictPaliWord>(s: Seq<T>, a: int, j: int)
    requires
        0 <= a < group_runs(s).len(),
        0 <= j < group_runs(s)[a].len(),
    ensures
        0 <= run_offset(s, a) + j < s.len(),
        s[run_offset(s, a) + j] == group_runs(s)[a][j],
        run_offset(s, a + 1) == run_offset(s, a) + group_runs(s)[a].len(),
{
    let runs = group_runs(s);
    lemma_group_runs(s);
    assert(runs =~= runs.take(a) + runs.skip(a));
    vstd::seq_lib::lemma_flatten_concat(runs.take(a), runs.skip(a));
    assert(s == runs.flatten());
    assert(runs.flatten() == runs.take(a).flatten() + runs.skip(a).flatten());
    assert(runs.skip(a)[0] == runs[a]);
    assert(runs.skip(a).drop_first() =~= runs.skip(a + 1));
    assert(runs.skip(a).flatten() == runs[a] + runs.skip(a + 1).flatten());
    assert(s[run_offset(s, a) + j] == runs.skip(a).flatten()[j]);
    assert(runs.take(a + 1) =~= runs.take(a).push(runs[a]));
    Seq::lemma_flatten_push(runs.take(a), runs[a]);
}

proof fn lemma_run_offset_mono<T: StarDictPaliWord>(s: Seq<T>, a: int, b: int)
    requires
        0 <= a <= b < group_runs(s).len(),
    ensures
        run_offset(s, a) <= run_offset(s, b),
    decreases b - a,
{
    if a < b {
        lemma_group_runs(s);
        lemma_run_positions(s, a, 0);
        lemma_run_offset_mono(s, a + 1, b);
    }
}

/// Law (full grouping): under the same premises, no two distinct runs of
/// the adjacency partition share a group key, so the partition coincides
/// with a full key-indexed grouping of the stream.
pub proof fn lemma_adjacent_grouping_is_full_grouping<T: StarDictPaliWord>(s: Seq<T>)
    requires
        sp_keys_derived(s),
        sp_sorted_by_sort_key(s),
        forall|m: int| 0 <= m < s.len() ==> sp_word_like((#[trigger] s[m]).sp_group_id()),
    ensures
        forall|a: int, b: int|
            0 <= a < b < group_runs(s).len() ==> (#[trigger] group_runs(s)[a])[0].sp_group_id()
                != (#[trigger] group_runs(s)[b])[0].sp_group_id(),
{
    let runs = group_runs(s);
    lemma_group_runs(s);
    assert forall|a: int, b: int|
        0 <= a < b < runs.len() implies (#[trigger] runs[a])[0].sp_group_id() != (
    #[trigger] runs[b])[0].sp_group_id() by {
        if runs[a][0].sp_group_id() == runs[b][0].sp_group_id() {
            lemma_run_positions(s, a, 0);
            lemma_run_positions(s, b - 1, 0);
            lemma_run_positions(s, b, 0);
            lemma_run_offset_mono(s, a, b - 1);
            let p = run_offset(s, a);
            let q = run_offset(s, b - 1);
            let r = run_offset(s, b);
            assert(q < r);
            assert(s[p] == runs[a][0]);
            assert(s[q] == runs[b - 1][0]);
            assert(s[r] == runs[b][0]);
            lemma_sorted_grouping_contiguous(s, p, q, r);
            assert(runs[b - 1][0].sp_group_id() == runs[b][0].sp_group_id());
            assert(false);
        }
    }
}

} // verus!

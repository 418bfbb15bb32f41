//! Sorting scanned entries by case-insensitive name.
//!
//! The order is `lex_le` on the folded names. The sort is a stable
//! insertion sort: an entry is placed after every already-placed entry
//! whose folded name is less than or equal to its own, so entries with
//! equal folded names keep their original relative order, and the result
//! is a function of the input alone.

use vstd::prelude::*;
use crate::text::{lower_of, lex_le, lemma_lex_le_total, lemma_lex_le_trans, lowercase, lex_le_str};
use crate::types::{FileInfo, FileInfoV};

verus! {

/// The sort order: folded name of `a` at or before folded name of `b`.
pub open spec fn fi_le(a: FileInfoV, b: FileInfoV) -> bool {
    lex_le(lower_of(a.name), lower_of(b.name))
}

/// The views of a sequence of entries.
pub open spec fn views_of(s: Seq<FileInfo>) -> Seq<FileInfoV> {
    s.map_values(|f: FileInfo| f@)
}

/// Sorted ascending by case-insensitive name.
pub open spec fn sorted_ci(s: Seq<FileInfoV>) -> bool {
    forall|i: int, j: int| 0 <= i < j < s.len() ==> #[trigger] fi_le(s[i], s[j])
}

/// Where `e` lands when inserted into `s`: after every leading entry at
/// or before it in the order, before the rest.
pub open spec fn insert_sorted(e: FileInfoV, s: Seq<FileInfoV>) -> Seq<FileInfoV>
    decreases s.len(),
{
    if s.len() == 0 {
        seq![e]
    } else if fi_le(s[0], e) {
        seq![s[0]] + insert_sorted(e, s.drop_first())
    } else {
        seq![e] + s
    }
}

/// The sorted sequence: each entry of `s`, in order, inserted into the
/// sorted sequence of the entries before it.
pub open spec fn insort(s: Seq<FileInfoV>) -> Seq<FileInfoV>
    decreases s.len(),
{
    if s.len() == 0 {
        Seq::empty()
    } else {
        insert_sorted(s.last(), insort(s.drop_last()))
    }
}

/// Inserting `e` at the first position whose entry is not at or before
/// `e` is exactly `insert_sorted`.
pub proof fn lemma_insert_sorted_at(e: FileInfoV, s: Seq<FileInfoV>, j: int)
    requires
        0 <= j <= s.len(),
        forall|k: int| 0 <= k < j ==> fi_le(#[trigger] s[k], e),
        j < s.len() ==> !fi_le(s[j], e),
    ensures
        insert_sorted(e, s) == s.insert(j, e),
    decreases j,
{
    if j == 0 {
        if s.len() == 0 {
            assert(insert_sorted(e, s) =~= s.insert(0, e));
        } else {
            assert(insert_sorted(e, s) =~= s.insert(0, e));
        }
    } else {
        assert(fi_le(s[0], e));
        lemma_insert_sorted_at(e, s.drop_first(), j - 1);
        assert(seq![s[0]] + s.drop_first().insert(j - 1, e) =~= s.insert(j, e));
    }
}

/// What one insertion does: the length grows by one, the contents are the
/// old contents plus `e`, the sum of sizes grows by `e`'s size, and a
/// sorted sequence stays sorted.
pub proof fn lemma_insert_sorted(e: FileInfoV, s: Seq<FileInfoV>)
    requires
        sorted_ci(s),
    ensures
        insert_sorted(e, s).len() == s.len() + 1,
        insert_sorted(e, s).to_multiset() == s.to_multiset().insert(e),
        forall|x: FileInfoV| insert_sorted(e, s).contains(x) ==> s.contains(x) || x == e,
        sorted_ci(insert_sorted(e, s)),
    decreases s.len(),
{
    broadcast use vstd::seq_lib::group_to_multiset_ensures;
    broadcast use vstd::multiset::group_multiset_axioms;

    let out = insert_sorted(e, s);
    if s.len() == 0 {
        assert(out =~= s.insert(0, e));
        vstd::seq_lib::to_multiset_insert(s, 0, e);
        assert(forall|x: FileInfoV| out.contains(x) ==> s.contains(x) || x == e);
    } else if fi_le(s[0], e) {
        let rest = s.drop_first();
        let inner = insert_sorted(e, rest);
        assert(sorted_ci(rest)) by {
            assert(forall|i: int, j: int|
                0 <= i < j < rest.len() ==> rest[i] == s[i + 1] && rest[j] == s[j + 1]);
        }
        lemma_insert_sorted(e, rest);
        assert(out =~= inner.insert(0, s[0]));
        assert(s =~= rest.insert(0, s[0]));
        vstd::seq_lib::to_multiset_insert(inner, 0, s[0]);
        vstd::seq_lib::to_multiset_insert(rest, 0, s[0]);
        assert(out.to_multiset() == rest.to_multiset().insert(e).insert(s[0]));
        assert(rest.to_multiset().insert(e).insert(s[0]) =~= rest.to_multiset().insert(
            s[0],
        ).insert(e));
        // contents
        assert forall|x: FileInfoV| out.contains(x) implies s.contains(x) || x == e by {
            let idx = choose|idx: int| 0 <= idx < out.len() && out[idx] == x;
            if idx == 0 {
                assert(s[0] == x);
                assert(s.contains(x));
            } else {
                assert(inner[idx - 1] == x);
                assert(inner.contains(x));
                if x != e {
                    assert(rest.contains(x));
                    let m = choose|m: int| 0 <= m < rest.len() && rest[m] == x;
                    assert(s[m + 1] == x);
                    assert(s.contains(x));
                }
            }
        }
        // sortedness: the head is at or before everything that follows it
        assert forall|i: int, j: int| 0 <= i < j < out.len() implies #[trigger] fi_le(
            out[i],
            out[j],
        ) by {
            if i == 0 {
                let x = out[j];
                assert(inner[j - 1] == x);
                assert(inner.contains(x));
                if x == e {
                    assert(fi_le(s[0], e));
                } else {
                    assert(rest.contains(x));
                    let m = choose|m: int| 0 <= m < rest.len() && rest[m] == x;
                    assert(s[m + 1] == x);
                    assert(fi_le(s[0], s[m + 1]));
                }
            } else {
                assert(out[i] == inner[i - 1]);
                assert(out[j] == inner[j - 1]);
                assert(fi_le(inner[i - 1], inner[j - 1]));
            }
        }
    } else {
        assert(out =~= s.insert(0, e));
        vstd::seq_lib::to_multiset_insert(s, 0, e);
        assert forall|x: FileInfoV| out.contains(x) implies s.contains(x) || x == e by {
            let idx = choose|idx: int| 0 <= idx < out.len() && out[idx] == x;
            if idx > 0 {
                assert(s[idx - 1] == x);
                assert(s.contains(x));
            }
        }
        // e goes first: everything in s is at or after it
        assert forall|i: int, j: int| 0 <= i < j < out.len() implies #[trigger] fi_le(
            out[i],
            out[j],
        ) by {
            if i == 0 {
                assert(out[j] == s[j - 1]);
                if j == 1 {
                    lemma_lex_le_total(lower_of(e.name), lower_of(s[0].name));
                } else {
                    lemma_lex_le_total(lower_of(e.name), lower_of(s[0].name));
                    assert(fi_le(s[0], s[j - 1]));
                    lemma_lex_le_trans(
                        lower_of(e.name),
                        lower_of(s[0].name),
                        lower_of(s[j - 1].name),
                    );
                }
            } else {
                assert(out[i] == s[i - 1]);
                assert(out[j] == s[j - 1]);
                assert(fi_le(s[i - 1], s[j - 1]));
            }
        }
    }
}

/// What the sort does: same length, same contents, sorted output.
pub proof fn lemma_insort(s: Seq<FileInfoV>)
    ensures
        insort(s).len() == s.len(),
        insort(s).to_multiset() == s.to_multiset(),
        forall|x: FileInfoV| insort(s).contains(x) ==> s.contains(x),
        sorted_ci(insort(s)),
    decreases s.len(),
{
    broadcast use vstd::seq_lib::group_to_multiset_ensures;

    if s.len() == 0 {
        assert(insort(s) =~= s);
    } else {
        let rest = s.drop_last();
        let e = s.last();
        lemma_insort(rest);
        lemma_insert_sorted(e, insort(rest));
        assert(s =~= rest.push(e));
        assert(s.to_multiset() == rest.to_multiset().insert(e));
        assert forall|x: FileInfoV| insort(s).contains(x) implies s.contains(x) by {
            if x != e {
                assert(insort(rest).contains(x));
                assert(rest.contains(x));
                let m = choose|m: int| 0 <= m < rest.len() && rest[m] == x;
                assert(s[m] == x);
            } else {
                assert(s[s.len() - 1] == x);
            }
        }
    }
}

/// Places `e` into `acc` after every leading entry at or before it.
fn insert_entry(acc: &mut Vec<FileInfo>, e: FileInfo)
    ensures
        views_of(final(acc)@) == insert_sorted(e@, views_of(old(acc)@)),
{
    let ghost orig = views_of(acc@);
    let ghost ev = e@;
    let key = lowercase(e.name.as_str());
    let mut j: usize = 0;
    loop
        invariant
            j <= acc.len(),
            views_of(acc@) == orig,
            key@ == lower_of(ev.name),
            forall|k: int| 0 <= k < j ==> fi_le(#[trigger] orig[k], ev),
        ensures
            j <= acc.len(),
            views_of(acc@) == orig,
            forall|k: int| 0 <= k < j ==> fi_le(#[trigger] orig[k], ev),
            j < acc.len() ==> !fi_le(orig[j as int], ev),
        decreases acc.len() - j,
    {
        if j == acc.len() {
            break;
        }
        let jkey = lowercase(acc[j].name.as_str());
        proof {
            assert(orig[j as int] == acc@[j as int]@);
        }
        if !lex_le_str(jkey.as_str(), key.as_str()) {
            proof {
                assert(!fi_le(orig[j as int], ev));
            }
            break;
        }
        proof {
            assert(fi_le(orig[j as int], ev));
        }
        j = j + 1;
    }
    proof {
        lemma_insert_sorted_at(ev, orig, j as int);
    }
    acc.insert(j, e);
    proof {
        assert(views_of(acc@) =~= orig.insert(j as int, ev));
    }
}

/// Sorts the entries by case-insensitive name, stably.
pub(crate) fn sort_entries(input: Vec<FileInfo>) -> (r: Vec<FileInfo>)
    ensures
        views_of(r@) == insort(views_of(input@)),
{
    let ghost orig = views_of(input@);
    let mut rest = input;
    let mut acc: Vec<FileInfo> = Vec::new();
    let ghost mut i: int = 0;
    proof {
        assert(views_of(acc@) =~= orig.take(0));
        assert(insort(orig.take(0)) =~= Seq::<FileInfoV>::empty());
    }
    loop
        invariant
            0 <= i,
            i + rest.len() == orig.len(),
            views_of(rest@) == orig.skip(i),
            views_of(acc@) == insort(orig.take(i)),
        ensures
            i == orig.len(),
            views_of(acc@) == insort(orig.take(i)),
        decreases rest.len(),
    {
        if rest.len() == 0 {
            break;
        }
        let ghost prevv = rest@;
        let e = rest.remove(0);
        let ghost ev = e@;
        proof {
            assert(ev == views_of(prevv)[0]);
            assert(ev == orig[i]);
            assert(views_of(rest@) =~= views_of(prevv).drop_first());
            assert(views_of(prevv).drop_first() =~= orig.skip(i + 1));
        }
        insert_entry(&mut acc, e);
        proof {
            let t = orig.take(i + 1);
            assert(t.drop_last() =~= orig.take(i));
            assert(t.last() == orig[i]);
            assert(views_of(acc@) == insort(t));
            i = i + 1;
        }
    }
    proof {
        assert(orig.take(orig.len() as int) =~= orig);
    }
    acc
}

} // verus!

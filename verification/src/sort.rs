//! Stable sorting of named items: by name, and by score from high to low.
//!
//! Each sort is specified as insertion sort: every item in turn is put
//! after all the items already placed that do not come after it. That pins
//! down the result, equal items keeping their input order.
use vstd::prelude::*;
use crate::text::{
    seq_lt, seq_le, str_less, lemma_seq_lt_transitive, lemma_seq_lt_total,
};

verus! {

/// Inserting an item anywhere adds it to the multiset of items.
pub proof fn lemma_insert_to_multiset<A>(s: Seq<A>, p: int, x: A)
    requires
        0 <= p <= s.len(),
    ensures
        s.insert(p, x).to_multiset() =~= s.to_multiset().insert(x),
{
    broadcast use vstd::seq_lib::group_to_multiset_ensures;

    let r = s.insert(p, x);
    assert(r.remove(p) =~= s);
    assert(r[p] == x);
    assert(r.contains(x));
    assert(r.to_multiset().remove(x) == s.to_multiset());
    assert(r.to_multiset().count(x) > 0);
    assert(r.to_multiset() =~= r.to_multiset().remove(x).insert(x));
}

// ---------------------------------------------------------------------
// By name, ascending
// ---------------------------------------------------------------------

/// The models of named items: each name's characters with the item's view.
pub open spec fn named_view<T: View>(s: Seq<(String, T)>) -> Seq<(Seq<char>, T::V)> {
    Seq::new(s.len(), |k: int| (s[k].0@, s[k].1@))
}

/// Where `x` goes in `s` when it is inserted from the back: after the last
/// item whose name does not sort after `x`'s.
pub open spec fn name_insert_point<V>(s: Seq<(Seq<char>, V)>, x: (Seq<char>, V)) -> int
    decreases s.len(),
{
    if s.len() == 0 {
        0
    } else if seq_lt(x.0, s.last().0) {
        name_insert_point(s.drop_last(), x)
    } else {
        s.len() as int
    }
}

/// `s` with `x` inserted at its insertion point.
pub open spec fn name_insert<V>(s: Seq<(Seq<char>, V)>, x: (Seq<char>, V)) -> Seq<(Seq<char>, V)> {
    s.insert(name_insert_point(s, x), x)
}

/// `s` sorted by name, stably.
pub open spec fn sort_by_name_spec<V>(s: Seq<(Seq<char>, V)>) -> Seq<(Seq<char>, V)>
    decreases s.len(),
{
    if s.len() == 0 {
        s
    } else {
        name_insert(sort_by_name_spec(s.drop_last()), s.last())
    }
}

/// Names never decrease along the sequence.
pub open spec fn sorted_by_name<V>(s: Seq<(Seq<char>, V)>) -> bool {
    forall|i: int, j: int| 0 <= i < j < s.len() ==> seq_le(#[trigger] s[i].0, #[trigger] s[j].0)
}

pub proof fn lemma_name_insert_point<V>(s: Seq<(Seq<char>, V)>, x: (Seq<char>, V))
    ensures
        0 <= name_insert_point(s, x) <= s.len(),
        forall|k: int| name_insert_point(s, x) <= k < s.len() ==> seq_lt(x.0, #[trigger] s[k].0),
        name_insert_point(s, x) == 0 || !seq_lt(x.0, s[name_insert_point(s, x) - 1].0),
    decreases s.len(),
{
    if s.len() > 0 && seq_lt(x.0, s.last().0) {
        let t = s.drop_last();
        lemma_name_insert_point(t, x);
        assert forall|k: int| name_insert_point(s, x) <= k < s.len() implies seq_lt(
            x.0,
            #[trigger] s[k].0,
        ) by {
            if k < s.len() - 1 {
                assert(s[k] == t[k]);
            }
        }
    }
}

pub proof fn lemma_name_insert_point_unique<V>(s: Seq<(Seq<char>, V)>, x: (Seq<char>, V), j: int)
    requires
        0 <= j <= s.len(),
        forall|k: int| j <= k < s.len() ==> seq_lt(x.0, #[trigger] s[k].0),
        j == 0 || !seq_lt(x.0, s[j - 1].0),
    ensures
        name_insert_point(s, x) == j,
{
    lemma_name_insert_point(s, x);
    let p = name_insert_point(s, x);
    if p < j {
        assert(seq_lt(x.0, s[j - 1].0));
    } else if j < p {
        assert(seq_lt(x.0, s[p - 1].0));
    }
}

/// Inserting keeps a sorted sequence sorted.
pub proof fn lemma_name_insert_sorted<V>(s: Seq<(Seq<char>, V)>, x: (Seq<char>, V))
    requires
        sorted_by_name(s),
    ensures
        sorted_by_name(name_insert(s, x)),
{
    lemma_name_insert_point(s, x);
    let p = name_insert_point(s, x);
    let r = name_insert(s, x);
    if p > 0 {
        lemma_seq_lt_total(x.0, s[p - 1].0);
    }
    assert forall|i: int, j: int| 0 <= i < j < r.len() implies seq_le(
        #[trigger] r[i].0,
        #[trigger] r[j].0,
    ) by {
        if j < p {
            assert(r[i] == s[i] && r[j] == s[j]);
        } else if j == p {
            assert(r[i] == s[i]);
            if i < p - 1 {
                assert(seq_le(s[i].0, s[p - 1].0));
            }
            if s[p - 1].0 != x.0 && seq_lt(s[i].0, s[p - 1].0) {
                lemma_seq_lt_transitive(s[i].0, s[p - 1].0, x.0);
            }
        } else if i == p {
            assert(r[j] == s[j - 1]);
        } else if i < p {
            assert(r[i] == s[i] && r[j] == s[j - 1]);
        } else {
            assert(r[i] == s[i - 1] && r[j] == s[j - 1]);
        }
    }
}

/// Sorting by name orders the names, and neither adds nor loses an item.
pub proof fn lemma_sort_by_name<V>(s: Seq<(Seq<char>, V)>)
    ensures
        sorted_by_name(sort_by_name_spec(s)),
        sort_by_name_spec(s).to_multiset() == s.to_multiset(),
        sort_by_name_spec(s).len() == s.len(),
    decreases s.len(),
{
    broadcast use vstd::seq_lib::group_to_multiset_ensures;

    if s.len() > 0 {
        let t = s.drop_last();
        lemma_sort_by_name(t);
        let st = sort_by_name_spec(t);
        lemma_name_insert_sorted(st, s.last());
        lemma_name_insert_point(st, s.last());
        lemma_insert_to_multiset(st, name_insert_point(st, s.last()), s.last());
        assert(s =~= t.push(s.last()));
    }
}

/// Sorts items by name; items with equal names keep their order
/// (`slice::sort_by` on the name).
pub fn sort_by_name<T: View>(v: &mut Vec<(String, T)>)
    ensures
        named_view(final(v)@) == sort_by_name_spec(named_view(old(v)@)),
{
    let ghost orig = named_view(v@);
    let n = v.len();
    let mut i: usize = 0;
    assert(orig.take(0) =~= Seq::<(Seq<char>, T::V)>::empty());
    assert(named_view(v@).take(0) =~= Seq::<(Seq<char>, T::V)>::empty());
    while i < n
        invariant
            n == orig.len(),
            v@.len() == n,
            i <= n,
            named_view(v@).take(i as int) == sort_by_name_spec(orig.take(i as int)),
            named_view(v@).skip(i as int) == orig.skip(i as int),
        decreases n - i,
    {
        let ghost placed = named_view(v@).take(i as int);
        let ghost pre = named_view(v@);
        let x = v.remove(i);
        let ghost xv = (x.0@, x.1@);
        assert(xv == orig[i as int]) by {
            assert(pre.skip(i as int)[0] == orig.skip(i as int)[0]);
        }
        assert(named_view(v@) =~= pre.remove(i as int));
        assert(named_view(v@).take(i as int) =~= placed);
        let ghost rest = named_view(v@).skip(i as int);
        assert forall|k: int| 0 <= k < rest.len() implies #[trigger] rest[k] == orig.skip(i + 1)[k] by {
            assert(pre.skip(i as int)[k + 1] == orig.skip(i as int)[k + 1]);
        }
        assert(rest =~= orig.skip(i + 1));
        let mut j: usize = i;
        while j > 0 && str_less(x.0.as_str(), v[j - 1].0.as_str())
            invariant
                j <= i,
                i < n,
                v@.len() == n - 1,
                named_view(v@).take(i as int) == placed,
                forall|k: int| j <= k < i ==> seq_lt(x.0@, #[trigger] placed[k].0),
            decreases j,
        {
            assert(placed[j - 1] == named_view(v@)[j - 1]);
            j = j - 1;
        }
        proof {
            if j > 0 {
                assert(placed[j - 1] == named_view(v@)[j - 1]);
            }
            lemma_name_insert_point_unique(placed, xv, j as int);
        }
        let ghost mid = named_view(v@);
        v.insert(j, x);
        proof {
            assert(named_view(v@) =~= mid.insert(j as int, xv));
            assert(orig.take(i + 1).drop_last() =~= orig.take(i as int));
            assert(orig.take(i + 1).last() == xv);
            assert(named_view(v@).take(i + 1) =~= placed.insert(j as int, xv));
            assert(named_view(v@).skip(i + 1) =~= rest);
        }
        i = i + 1;
    }
    assert(orig.take(n as int) =~= orig);
    assert(named_view(v@).take(n as int) =~= named_view(v@));
}

// ---------------------------------------------------------------------
// By score, descending
// ---------------------------------------------------------------------

/// Where `x` goes when inserted from the back: after the last item whose
/// score is not lower than `x`'s.
pub open spec fn score_insert_point(s: Seq<(String, u16)>, x: (String, u16)) -> int
    decreases s.len(),
{
    if s.len() == 0 {
        0
    } else if x.1 > s.last().1 {
        score_insert_point(s.drop_last(), x)
    } else {
        s.len() as int
    }
}

/// `s` sorted by score from high to low, stably.
pub open spec fn sort_by_score_spec(s: Seq<(String, u16)>) -> Seq<(String, u16)>
    decreases s.len(),
{
    if s.len() == 0 {
        s
    } else {
        let t = sort_by_score_spec(s.drop_last());
        t.insert(score_insert_point(t, s.last()), s.last())
    }
}

/// Scores never increase along the sequence.
pub open spec fn sorted_by_score_desc(s: Seq<(String, u16)>) -> bool {
    forall|i: int, j: int| 0 <= i < j < s.len() ==> #[trigger] s[i].1 >= #[trigger] s[j].1
}

pub proof fn lemma_score_insert_point(s: Seq<(String, u16)>, x: (String, u16))
    ensures
        0 <= score_insert_point(s, x) <= s.len(),
        forall|k: int| score_insert_point(s, x) <= k < s.len() ==> x.1 > #[trigger] s[k].1,
        score_insert_point(s, x) == 0 || x.1 <= s[score_insert_point(s, x) - 1].1,
    decreases s.len(),
{
    if s.len() > 0 && x.1 > s.last().1 {
        let t = s.drop_last();
        lemma_score_insert_point(t, x);
        assert forall|k: int| score_insert_point(s, x) <= k < s.len() implies x.1 > #[trigger] s[k].1 by {
            if k < s.len() - 1 {
                assert(s[k] == t[k]);
            }
        }
    }
}

pub proof fn lemma_score_insert_point_unique(s: Seq<(String, u16)>, x: (String, u16), j: int)
    requires
        0 <= j <= s.len(),
        forall|k: int| j <= k < s.len() ==> x.1 > #[trigger] s[k].1,
        j == 0 || x.1 <= s[j - 1].1,
    ensures
        score_insert_point(s, x) == j,
{
    lemma_score_insert_point(s, x);
    let p = score_insert_point(s, x);
    if p < j {
        assert(x.1 > s[j - 1].1);
    } else if j < p {
        assert(x.1 > s[p - 1].1);
    }
}

/// Sorting by score orders the scores from high to low, and neither adds
/// nor loses an item.
pub proof fn lemma_sort_by_score(s: Seq<(String, u16)>)
    ensures
        sorted_by_score_desc(sort_by_score_spec(s)),
        sort_by_score_spec(s).to_multiset() == s.to_multiset(),
        sort_by_score_spec(s).len() == s.len(),
    decreases s.len(),
{
    broadcast use vstd::seq_lib::group_to_multiset_ensures;

    if s.len() > 0 {
        let t = s.drop_last();
        let x = s.last();
        lemma_sort_by_score(t);
        let st = sort_by_score_spec(t);
        lemma_score_insert_point(st, x);
        let p = score_insert_point(st, x);
        let r = st.insert(p, x);
        assert forall|i: int, j: int| 0 <= i < j < r.len() implies #[trigger] r[i].1 >= #[trigger] r[j].1 by {
            if j < p {
                assert(r[i] == st[i] && r[j] == st[j]);
            } else if j == p {
                assert(r[i] == st[i]);
                assert(st[i].1 >= st[p - 1].1);
            } else if i == p {
                assert(r[j] == st[j - 1]);
            } else if i < p {
                assert(r[i] == st[i] && r[j] == st[j - 1]);
            } else {
                assert(r[i] == st[i - 1] && r[j] == st[j - 1]);
            }
        }
        lemma_insert_to_multiset(st, p, x);
        assert(s =~= t.push(x));
    }
}

/// Sorts scored items from the highest score down; items with equal scores
/// keep their order (`slice::sort_by` with the comparison reversed).
pub fn sort_by_score_desc(v: &mut Vec<(String, u16)>)
    ensures
        final(v)@ == sort_by_score_spec(old(v)@),
{
    let ghost orig = v@;
    let n = v.len();
    let mut i: usize = 0;
    assert(orig.take(0) =~= Seq::<(String, u16)>::empty());
    while i < n
        invariant
            n == orig.len(),
            v@.len() == n,
            i <= n,
            v@.take(i as int) == sort_by_score_spec(orig.take(i as int)),
            v@.skip(i as int) == orig.skip(i as int),
        decreases n - i,
    {
        let ghost placed = v@.take(i as int);
        let ghost pre = v@;
        let x = v.remove(i);
        assert(x == orig[i as int]) by {
            assert(pre.skip(i as int)[0] == orig.skip(i as int)[0]);
        }
        assert(v@ =~= pre.remove(i as int));
        assert(v@.take(i as int) =~= placed);
        let ghost rest = v@.skip(i as int);
        assert forall|k: int| 0 <= k < rest.len() implies #[trigger] rest[k] == orig.skip(i + 1)[k] by {
            assert(pre.skip(i as int)[k + 1] == orig.skip(i as int)[k + 1]);
        }
        assert(rest =~= orig.skip(i + 1));
        let mut j: usize = i;
        while j > 0 && x.1 > v[j - 1].1
            invariant
                j <= i,
                i < n,
                v@.len() == n - 1,
                v@.take(i as int) == placed,
                forall|k: int| j <= k < i ==> x.1 > #[trigger] placed[k].1,
            decreases j,
        {
            assert(placed[j - 1] == v@[j - 1]);
            j = j - 1;
        }
        proof {
            if j > 0 {
                assert(placed[j - 1] == v@[j - 1]);
            }
            lemma_score_insert_point_unique(placed, x, j as int);
        }
        v.insert(j, x);
        proof {
            assert(orig.take(i + 1).drop_last() =~= orig.take(i as int));
            assert(orig.take(i + 1).last() == x);
            assert(v@.take(i + 1) =~= placed.insert(j as int, x));
            assert(v@.skip(i + 1) =~= rest);
        }
        i = i + 1;
    }
    assert(orig.take(n as int) =~= orig);
    assert(v@.take(n as int) =~= v@);
}

} // verus!

//! Stable ordering by a text key and removal of adjacent repeats, the two
//! list operations that skill and agent listings go through.
use vstd::prelude::*;

use crate::text::lemma_text_le_total;
use crate::text::text_le;
use crate::text::text_le_exec;

verus! {

/// A value listed in the order of one of its texts.
pub trait SortKey: DeepView + Sized {
    /// The text a value of this kind is ordered by.
    spec fn key_of(v: Self::V) -> Seq<char>;

    /// The text this value is ordered by.
    fn sort_key(&self) -> (r: &str)
        ensures
            r@ == Self::key_of(self.deep_view()),
    ;
}

/// `s` with `x` placed after every element whose key is no greater than the
/// key of `x`, counting from the end: inserting into a sorted list keeps it
/// sorted and keeps equal keys in arrival order.
pub open spec fn insert_by_key<V>(s: Seq<V>, x: V, key: spec_fn(V) -> Seq<char>) -> Seq<V>
    decreases s.len(),
{
    if s.len() == 0 {
        seq![x]
    } else if text_le(key(s.last()), key(x)) {
        s.push(x)
    } else {
        insert_by_key(s.drop_last(), x, key).push(s.last())
    }
}

/// The stable sort of `s` by key (the order of `slice::sort_by` with a
/// comparison of the keys).
pub open spec fn sort_by_key<V>(s: Seq<V>, key: spec_fn(V) -> Seq<char>) -> Seq<V>
    decreases s.len(),
{
    if s.len() == 0 {
        s
    } else {
        insert_by_key(sort_by_key(s.drop_last(), key), s.last(), key)
    }
}

/// Whether the keys of `s` never decrease.
pub open spec fn sorted_by_key<V>(s: Seq<V>, key: spec_fn(V) -> Seq<char>) -> bool {
    forall|i: int, j: int| 0 <= i < j < s.len() ==> text_le(key(#[trigger] s[i]), key(#[trigger] s[j]))
}

proof fn lemma_insert_at<V>(s: Seq<V>, x: V, key: spec_fn(V) -> Seq<char>, j: int)
    requires
        0 <= j <= s.len(),
        forall|m: int| j <= m < s.len() ==> !text_le(key(#[trigger] s[m]), key(x)),
        j > 0 ==> text_le(key(s[j - 1]), key(x)),
    ensures
        insert_by_key(s, x, key) == s.take(j) + seq![x] + s.skip(j),
    decreases s.len(),
{
    if s.len() == j {
        if j == 0 {
            assert(s.take(j) + seq![x] + s.skip(j) =~= seq![x]);
        } else {
            assert(s.take(j) + seq![x] + s.skip(j) =~= s.push(x));
        }
    } else {
        assert(!text_le(key(s[s.len() - 1]), key(x)));
        lemma_insert_at(s.drop_last(), x, key, j);
        assert(s.drop_last().take(j) + seq![x] + s.drop_last().skip(j) + seq![s.last()] =~= s.take(j)
            + seq![x] + s.skip(j));
    }
}

proof fn lemma_insert_multiset<V>(s: Seq<V>, x: V, key: spec_fn(V) -> Seq<char>)
    ensures
        insert_by_key(s, x, key).to_multiset() == s.to_multiset().insert(x),
    decreases s.len(),
{
    broadcast use vstd::seq_lib::group_to_multiset_ensures;

    if s.len() == 0 {
        assert(seq![x] =~= Seq::<V>::empty().push(x));
        assert(s =~= Seq::<V>::empty());
    } else if !text_le(key(s.last()), key(x)) {
        lemma_insert_multiset(s.drop_last(), x, key);
        assert(s =~= s.drop_last().push(s.last()));
        assert(s.drop_last().to_multiset().insert(x).insert(s.last()) =~= s.drop_last().to_multiset(
        ).insert(s.last()).insert(x));
    }
}

proof fn lemma_insert_bounded<V>(s: Seq<V>, x: V, key: spec_fn(V) -> Seq<char>, b: Seq<char>)
    requires
        forall|i: int| 0 <= i < s.len() ==> text_le(key(#[trigger] s[i]), b),
        text_le(key(x), b),
    ensures
        forall|i: int|
            0 <= i < insert_by_key(s, x, key).len() ==> text_le(
                key(#[trigger] insert_by_key(s, x, key)[i]),
                b,
            ),
        insert_by_key(s, x, key).len() == s.len() + 1,
    decreases s.len(),
{
    if s.len() > 0 && !text_le(key(s.last()), key(x)) {
        lemma_insert_bounded(s.drop_last(), x, key, b);
    }
}

proof fn lemma_insert_sorted<V>(s: Seq<V>, x: V, key: spec_fn(V) -> Seq<char>)
    requires
        sorted_by_key(s, key),
    ensures
        sorted_by_key(insert_by_key(s, x, key), key),
        insert_by_key(s, x, key).len() == s.len() + 1,
    decreases s.len(),
{
    if s.len() == 0 {
    } else if text_le(key(s.last()), key(x)) {
        let r = s.push(x);
        assert forall|i: int, j: int| 0 <= i < j < r.len() implies text_le(
            key(#[trigger] r[i]),
            key(#[trigger] r[j]),
        ) by {
            if j == s.len() {
                if i < s.len() - 1 {
                    crate::text::lemma_text_le_transitive(key(s[i]), key(s.last()), key(x));
                }
            }
        }
    } else {
        let t = s.drop_last();
        lemma_insert_sorted(t, x, key);
        lemma_text_le_total(key(s.last()), key(x));
        assert forall|i: int| 0 <= i < t.len() implies text_le(key(#[trigger] t[i]), key(s.last())) by {
            assert(s[i] == t[i]);
        }
        lemma_insert_bounded(t, x, key, key(s.last()));
        let inner = insert_by_key(t, x, key);
        let r = inner.push(s.last());
        assert forall|i: int, j: int| 0 <= i < j < r.len() implies text_le(
            key(#[trigger] r[i]),
            key(#[trigger] r[j]),
        ) by {
            if j == inner.len() {
                assert(r[i] == inner[i]);
            } else {
                assert(r[i] == inner[i]);
                assert(r[j] == inner[j]);
            }
        }
    }
}

/// The stable sort by key yields a list whose keys never decrease and which
/// holds the same elements, each as often.
pub proof fn sort_by_key_sorts<V>(s: Seq<V>, key: spec_fn(V) -> Seq<char>)
    ensures
        sorted_by_key(sort_by_key(s, key), key),
        sort_by_key(s, key).to_multiset() == s.to_multiset(),
        sort_by_key(s, key).len() == s.len(),
    decreases s.len(),
{
    broadcast use vstd::seq_lib::group_to_multiset_ensures;

    if s.len() > 0 {
        sort_by_key_sorts(s.drop_last(), key);
        lemma_insert_sorted(sort_by_key(s.drop_last(), key), s.last(), key);
        lemma_insert_multiset(sort_by_key(s.drop_last(), key), s.last(), key);
        assert(s =~= s.drop_last().push(s.last()));
    }
}

/// Sorts `items` by key, stably.
pub fn sort_items<T: SortKey>(items: Vec<T>) -> (r: Vec<T>)
    ensures
        r.deep_view() == sort_by_key(items.deep_view(), |v: T::V| T::key_of(v)),
{
    let ghost key = |v: T::V| T::key_of(v);
    let ghost orig = items.deep_view();
    let mut rest = items;
    let mut out: Vec<T> = Vec::new();
    assert(orig.take(0) =~= Seq::<T::V>::empty());
    assert(orig.skip(0) =~= orig);
    while rest.len() > 0
        invariant
            key == (|v: T::V| T::key_of(v)),
            rest.len() <= orig.len(),
            rest.deep_view() == orig.skip(orig.len() - rest.len()),
            out.deep_view() == sort_by_key(orig.take(orig.len() - rest.len()), key),
        decreases rest.len(),
    {
        let ghost k = orig.len() - rest.len();
        let ghost before = rest.deep_view();
        let x = rest.remove(0);
        proof {
            assert(x.deep_view() == before[0]);
            assert(rest.deep_view() =~= before.drop_first());
            assert(orig.skip(k + 1) =~= orig.skip(k).drop_first());
            assert(orig.take(k + 1).drop_last() =~= orig.take(k));
            assert(orig.take(k + 1).last() == orig[k]);
            assert(orig[k] == before[0]);
        }
        let ghost sorted = out.deep_view();
        let mut j: usize = out.len();
        while j > 0 && !text_le_exec(out[j - 1].sort_key(), x.sort_key())
            invariant
                key == (|v: T::V| T::key_of(v)),
                j <= out.len(),
                out.deep_view() == sorted,
                forall|m: int| j <= m < sorted.len() ==> !text_le(key(#[trigger] sorted[m]), key(x.deep_view())),
            decreases j,
        {
            j = j - 1;
        }
        proof {
            lemma_insert_at(sorted, x.deep_view(), key, j as int);
        }
        let ghost xv = x.deep_view();
        out.insert(j, x);
        proof {
            assert(out.deep_view() =~= sorted.take(j as int) + seq![xv] + sorted.skip(j as int));
        }
    }
    assert(orig.take(orig.len() as int) =~= orig);
    out
}

/// `s` without the elements equal to the element kept just before them
/// (`Vec::dedup`).
pub open spec fn dedup_adjacent<V>(s: Seq<V>) -> Seq<V>
    decreases s.len(),
{
    if s.len() == 0 {
        s
    } else {
        let d = dedup_adjacent(s.drop_last());
        if d.len() > 0 && d.last() == s.last() {
            d
        } else {
            d.push(s.last())
        }
    }
}

pub(crate) proof fn lemma_contains_push<V>(t: Seq<V>, a: V, x: V)
    ensures
        t.push(a).contains(x) <==> (t.contains(x) || x == a),
{
    if t.contains(x) {
        let k = choose|k: int| 0 <= k < t.len() && t[k] == x;
        assert(t.push(a)[k] == x);
    }
    if x == a {
        assert(t.push(a)[t.len() as int] == x);
    }
    if t.push(a).contains(x) {
        let k = choose|k: int| 0 <= k < t.push(a).len() && t.push(a)[k] == x;
        if k < t.len() {
            assert(t[k] == x);
        }
    }
}

/// Removing adjacent repeats leaves no two equal neighbours and keeps
/// every element that occurs.
pub proof fn dedup_adjacent_properties<V>(s: Seq<V>)
    ensures
        forall|i: int|
            0 <= i < dedup_adjacent(s).len() - 1 ==> #[trigger] dedup_adjacent(s)[i] != dedup_adjacent(
                s,
            )[i + 1],
        forall|x: V| dedup_adjacent(s).contains(x) <==> s.contains(x),
        dedup_adjacent(s).len() <= s.len(),
    decreases s.len(),
{
    if s.len() > 0 {
        let t = s.drop_last();
        dedup_adjacent_properties(t);
        let d = dedup_adjacent(t);
        assert(s =~= t.push(s.last()));
        assert forall|x: V| dedup_adjacent(s).contains(x) <==> s.contains(x) by {
            lemma_contains_push(t, s.last(), x);
            if d.len() > 0 && d.last() == s.last() {
                assert(d[d.len() - 1] == d.last());
            } else {
                lemma_contains_push(d, s.last(), x);
            }
        }
        if !(d.len() > 0 && d.last() == s.last()) {
            let r = d.push(s.last());
            assert forall|i: int| 0 <= i < r.len() - 1 implies #[trigger] r[i] != r[i + 1] by {
                if i < d.len() - 1 {
                    assert(r[i] == d[i]);
                    assert(r[i + 1] == d[i + 1]);
                }
            }
        }
    }
}

/// Removing adjacent repeats from a list sorted by key leaves it sorted.
pub proof fn dedup_adjacent_keeps_sorted<V>(s: Seq<V>, key: spec_fn(V) -> Seq<char>)
    requires
        sorted_by_key(s, key),
    ensures
        sorted_by_key(dedup_adjacent(s), key),
    decreases s.len(),
{
    if s.len() > 0 {
        let t = s.drop_last();
        assert(sorted_by_key(t, key)) by {
            assert forall|i: int, j: int| 0 <= i < j < t.len() implies text_le(
                key(#[trigger] t[i]),
                key(#[trigger] t[j]),
            ) by {
                assert(t[i] == s[i] && t[j] == s[j]);
            }
        }
        dedup_adjacent_keeps_sorted(t, key);
        dedup_adjacent_properties(t);
        let d = dedup_adjacent(t);
        if !(d.len() > 0 && d.last() == s.last()) {
            let r = d.push(s.last());
            assert forall|i: int, j: int| 0 <= i < j < r.len() implies text_le(
                key(#[trigger] r[i]),
                key(#[trigger] r[j]),
            ) by {
                assert(r[i] == d[i]);
                if j == d.len() {
                    assert(d.contains(d[i]));
                    assert(t.contains(d[i]));
                    let k = choose|k: int| 0 <= k < t.len() && t[k] == d[i];
                    assert(s[k] == t[k]);
                    assert(text_le(key(s[k]), key(s[s.len() - 1])));
                } else {
                    assert(r[j] == d[j]);
                }
            }
        }
    }
}

/// Sorting a list whose keys already never decrease leaves it as it is:
/// equal keys keep their order.
pub proof fn sorting_sorted_list_changes_nothing<V>(s: Seq<V>, key: spec_fn(V) -> Seq<char>)
    requires
        sorted_by_key(s, key),
    ensures
        sort_by_key(s, key) == s,
    decreases s.len(),
{
    if s.len() > 0 {
        let t = s.drop_last();
        assert(sorted_by_key(t, key)) by {
            assert forall|i: int, j: int| 0 <= i < j < t.len() implies text_le(
                key(#[trigger] t[i]),
                key(#[trigger] t[j]),
            ) by {
                assert(t[i] == s[i] && t[j] == s[j]);
            }
        }
        sorting_sorted_list_changes_nothing(t, key);
        if t.len() > 0 {
            assert(text_le(key(s[t.len() - 1]), key(s[s.len() - 1])));
            assert(t.last() == s[t.len() - 1]);
        }
        assert(t.push(s.last()) =~= s);
    }
}

/// A list with no element equal to the one just before it loses nothing to
/// the removal of adjacent repeats, even where equal elements lie apart.
pub proof fn dedup_keeps_list_without_adjacent_repeats<V>(s: Seq<V>)
    requires
        forall|i: int| 0 <= i < s.len() - 1 ==> #[trigger] s[i] != s[i + 1],
    ensures
        dedup_adjacent(s) == s,
    decreases s.len(),
{
    if s.len() > 0 {
        let t = s.drop_last();
        assert forall|i: int| 0 <= i < t.len() - 1 implies #[trigger] t[i] != t[i + 1] by {
            assert(t[i] == s[i] && t[i + 1] == s[i + 1]);
        }
        dedup_keeps_list_without_adjacent_repeats(t);
        if t.len() > 0 {
            assert(s[t.len() - 1] != s[t.len() as int]);
        }
        assert(t.push(s.last()) =~= s);
    }
}

} // verus!

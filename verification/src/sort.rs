//! A stable sort of class keys.
use vstd::prelude::*;
use crate::order::{
    class_less, class_precedes, comes_before, lemma_before_not_less, lemma_less_comes_before,
    lemma_not_less_follows,
    ClassKeyView, ClassSortKey,
};

verus! {

/// Some key among the first `bound` of `v` has index `m`.
pub open spec fn index_present(v: Seq<ClassSortKey>, bound: int, m: int) -> bool {
    exists|k: int| 0 <= k < bound && v[k].original_index == m
}

/// `i` occurs in `p`.
pub open spec fn lists(p: Seq<int>, i: int) -> bool {
    exists|k: int| 0 <= k < p.len() && p[k] == i
}

/// `p` lists each of `0..n` exactly once.
pub open spec fn is_permutation(p: Seq<int>, n: nat) -> bool {
    &&& p.len() == n
    &&& forall|k: int| 0 <= k < n ==> 0 <= #[trigger] p[k] < n
    &&& forall|k1: int, k2: int|
        0 <= k1 < n && 0 <= k2 < n && k1 != k2 ==> #[trigger] p[k1] != #[trigger] p[k2]
    &&& forall|i: int| 0 <= i < n ==> #[trigger] lists(p, i)
}

/// Arranging the classes with keys `keys` as `p` (position `k` gets class
/// `p[k]`) puts each class before the next one in the sense of `comes_before`.
pub open spec fn is_sorted_arrangement(keys: Seq<ClassKeyView>, p: Seq<int>) -> bool {
    &&& is_permutation(p, keys.len())
    &&& forall|k: int| 0 <= k < p.len() - 1 ==> comes_before(keys[#[trigger] p[k]], keys[p[k + 1]])
}

/// Each key records its own position in the list.
pub open spec fn indexed(keys: Seq<ClassKeyView>) -> bool {
    forall|i: int| 0 <= i < keys.len() ==> (#[trigger] keys[i]).original_index == i
}

pub open spec fn views(v: Seq<ClassSortKey>) -> Seq<ClassKeyView> {
    v.map_values(|k: ClassSortKey| k@)
}

/// The arrangement that the index fields of a sorted vector describe.
pub open spec fn arrangement_of(v: Seq<ClassSortKey>) -> Seq<int> {
    v.map_values(|k: ClassSortKey| k.original_index as int)
}

/// Where inserting class `x` into the arrangement `order` puts it: just after
/// the last class that it does not compare less than, or first.
pub open spec fn insert_position(keys: Seq<ClassKeyView>, order: Seq<int>, x: int) -> int
    decreases order.len(),
{
    if order.len() == 0 || !class_less(keys[x], keys[order.last()]) {
        order.len() as int
    } else {
        insert_position(keys, order.drop_last(), x)
    }
}

/// The arrangement of the classes `0..n` that inserting each in turn, in list
/// order, gives: the order of a stable insertion sort.
pub open spec fn insertion_order(keys: Seq<ClassKeyView>, n: nat) -> Seq<int>
    decreases n,
{
    if n == 0 {
        Seq::empty()
    } else {
        let o = insertion_order(keys, (n - 1) as nat);
        o.insert(insert_position(keys, o, n - 1), n - 1)
    }
}

proof fn lemma_insert_position(keys: Seq<ClassKeyView>, order: Seq<int>, x: int)
    ensures
        0 <= insert_position(keys, order, x) <= order.len(),
        forall|k: int|
            insert_position(keys, order, x) <= k < order.len() ==> class_less(
                keys[x],
                keys[#[trigger] order[k]],
            ),
        insert_position(keys, order, x) == 0 || !class_less(
            keys[x],
            keys[order[insert_position(keys, order, x) - 1]],
        ),
    decreases order.len(),
{
    if order.len() > 0 && class_less(keys[x], keys[order.last()]) {
        let init = order.drop_last();
        lemma_insert_position(keys, init, x);
        let j = insert_position(keys, order, x);
        assert forall|k: int| j <= k < order.len() implies class_less(keys[x], keys[#[trigger] order[k]]) by {
            if k < order.len() - 1 {
                assert(order[k] == init[k]);
            }
        }
        if j > 0 {
            assert(order[j - 1] == init[j - 1]);
        }
    }
}

/// `o` lists the classes `0..m` once each, each before the next in the sense
/// of `comes_before`.
pub open spec fn arranges_prefix(keys: Seq<ClassKeyView>, o: Seq<int>, m: int) -> bool {
    &&& o.len() == m
    &&& forall|k: int| 0 <= k < m ==> 0 <= #[trigger] o[k] < m
    &&& forall|k1: int, k2: int|
        0 <= k1 < m && 0 <= k2 < m && k1 != k2 ==> #[trigger] o[k1] != #[trigger] o[k2]
    &&& forall|i: int| 0 <= i < m ==> #[trigger] lists(o, i)
    &&& forall|k: int| 0 <= k < m - 1 ==> comes_before(keys[#[trigger] o[k]], keys[o[k + 1]])
}

proof fn lemma_insertion_order_arranges(keys: Seq<ClassKeyView>, m: nat)
    requires
        indexed(keys),
        m <= keys.len(),
    ensures
        arranges_prefix(keys, insertion_order(keys, m), m as int),
    decreases m,
{
    if m == 0 {
        assert(insertion_order(keys, 0) =~= Seq::<int>::empty());
    } else {
        let x = m - 1;
        let o = insertion_order(keys, (m - 1) as nat);
        lemma_insertion_order_arranges(keys, (m - 1) as nat);
        lemma_insert_position(keys, o, x);
        let j = insert_position(keys, o, x);
        let n = o.insert(j, x);
        assert(insertion_order(keys, m) == n);
        assert forall|k: int| 0 <= k < m implies #[trigger] n[k] == if k < j {
            o[k]
        } else if k == j {
            x
        } else {
            o[k - 1]
        } by {}
        assert forall|k: int| 0 <= k < m implies 0 <= #[trigger] n[k] < m by {
            if k != j {
                assert(n[k] == if k < j { o[k] } else { o[k - 1] });
            }
        }
        assert forall|k1: int, k2: int| 0 <= k1 < m && 0 <= k2 < m && k1 != k2 implies #[trigger] n[k1]
            != #[trigger] n[k2] by {
            let o1 = if k1 < j { k1 } else { k1 - 1 };
            let o2 = if k2 < j { k2 } else { k2 - 1 };
            if k1 != j {
                assert(n[k1] == o[o1]);
            }
            if k2 != j {
                assert(n[k2] == o[o2]);
            }
        }
        assert forall|i: int| 0 <= i < m implies #[trigger] lists(n, i) by {
            if i == x {
                assert(n[j] == x);
            } else {
                assert(lists(o, i));
                let k0 = choose|k: int| 0 <= k < o.len() && o[k] == i;
                if k0 < j {
                    assert(n[k0] == o[k0]);
                } else {
                    assert(n[k0 + 1] == o[k0]);
                }
            }
        }
        assert forall|k: int| 0 <= k < m - 1 implies comes_before(keys[#[trigger] n[k]], keys[n[k + 1]]) by {
            if k + 1 < j {
                assert(n[k] == o[k] && n[k + 1] == o[k + 1]);
            } else if k + 1 == j {
                assert(n[k] == o[k] && n[k + 1] == x);
                assert(0 <= o[k] < x);
                assert(keys[o[k]].original_index == o[k]);
                assert(keys[x].original_index == x);
                lemma_not_less_follows(keys[x], keys[o[k]]);
            } else if k == j {
                assert(n[k] == x && n[k + 1] == o[k]);
                lemma_less_comes_before(keys[x], keys[o[k]]);
            } else {
                assert(n[k] == o[k - 1] && n[k + 1] == o[k]);
            }
        }
    }
}

/// The order of a stable insertion sort is a sorted arrangement.
pub proof fn insertion_order_is_sorted(keys: Seq<ClassKeyView>)
    requires
        indexed(keys),
    ensures
        is_sorted_arrangement(keys, insertion_order(keys, keys.len())),
{
    lemma_insertion_order_arranges(keys, keys.len());
}

/// Where the classes already stand in a sorted arrangement, a stable
/// insertion sort leaves them in place.
pub proof fn insertion_order_of_sorted(keys: Seq<ClassKeyView>, m: nat)
    requires
        is_sorted_arrangement(keys, Seq::new(keys.len(), |k: int| k)),
        m <= keys.len(),
    ensures
        insertion_order(keys, m) == Seq::new(m, |k: int| k),
    decreases m,
{
    let id = Seq::new(keys.len(), |k: int| k);
    if m == 0 {
        assert(insertion_order(keys, 0) =~= Seq::new(0, |k: int| k));
    } else {
        insertion_order_of_sorted(keys, (m - 1) as nat);
        let o = Seq::new((m - 1) as nat, |k: int| k);
        if m >= 2 {
            assert(id[m - 2] == m - 2 && id[m - 1] == m - 1);
            assert(comes_before(keys[id[m - 2]], keys[id[m - 1]]));
            lemma_before_not_less(keys[m - 2], keys[m - 1]);
            assert(o.last() == m - 2);
        }
        assert(insert_position(keys, o, m - 1) == m - 1);
        assert(o.insert(m - 1, m - 1) =~= Seq::new(m, |k: int| k));
    }
}

/// The state of the insertion sort after `i` classes: the first `i` hold the
/// classes `0..i` in sorted arrangement, the rest are untouched.
pub open spec fn insertion_inv(v: Seq<ClassSortKey>, keys: Seq<ClassKeyView>, i: int) -> bool {
    let n = keys.len();
    &&& 1 <= i <= n
    &&& v.len() == n
    &&& forall|k: int|
        0 <= k < n ==> (#[trigger] v[k])@ == keys[v[k].original_index as int] && v[k].original_index
            < n
    &&& forall|k: int| i <= k < n ==> (#[trigger] v[k]).original_index == k
    &&& forall|k: int| 0 <= k < i ==> (#[trigger] v[k]).original_index < i
    &&& forall|k1: int, k2: int|
        0 <= k1 < i && 0 <= k2 < i && k1 != k2 ==> (#[trigger] v[k1]).original_index
            != (#[trigger] v[k2]).original_index
    &&& forall|m: int| 0 <= m < i ==> #[trigger] index_present(v, i, m)
    &&& forall|k: int| 0 <= k < i - 1 ==> comes_before(#[trigger] v[k]@, v[k + 1]@)
}

/// Where the classes of `before` are after removing the one at `i` and
/// inserting it at `j <= i`.
pub open spec fn moved_from(before: Seq<ClassSortKey>, i: int, j: int, k: int) -> int {
    if k < j {
        k
    } else if k == j {
        i
    } else if k <= i {
        k - 1
    } else {
        k
    }
}

proof fn lemma_moved(before: Seq<ClassSortKey>, i: int, j: int, after: Seq<ClassSortKey>)
    requires
        0 <= j <= i < before.len(),
        after == before.remove(i).insert(j, before[i]),
    ensures
        after.len() == before.len(),
        forall|k: int| 0 <= k < after.len() ==> #[trigger] after[k] == before[moved_from(before, i, j, k)],
{
    assert forall|k: int| 0 <= k < after.len() implies #[trigger] after[k] == before[moved_from(before, i, j, k)] by {
        if k < j {
            assert(after[k] == before.remove(i)[k]);
        } else if k > j {
            assert(after[k] == before.remove(i)[k - 1]);
        }
    }
}

proof fn lemma_insertion_order_step(
    before: Seq<ClassSortKey>,
    keys: Seq<ClassKeyView>,
    i: int,
    j: int,
    after: Seq<ClassSortKey>,
)
    requires
        0 <= j <= i < before.len(),
        before[i].original_index == i,
        arrangement_of(before).take(i) == insertion_order(keys, i as nat),
        insert_position(keys, insertion_order(keys, i as nat), i) == j,
        after.len() == before.len(),
        forall|k: int| 0 <= k < after.len() ==> #[trigger] after[k] == before[moved_from(before, i, j, k)],
    ensures
        arrangement_of(after).take(i + 1) == insertion_order(keys, (i + 1) as nat),
{
    let o = arrangement_of(before).take(i);
    assert(insertion_order(keys, (i + 1) as nat) == o.insert(j, i));
    assert forall|k: int| 0 <= k < i + 1 implies arrangement_of(after).take(i + 1)[k] == o.insert(j, i)[k] by {
        assert(after[k] == before[moved_from(before, i, j, k)]);
    }
    assert(arrangement_of(after).take(i + 1) =~= o.insert(j, i));
}

proof fn lemma_insertion_indices(
    before: Seq<ClassSortKey>,
    keys: Seq<ClassKeyView>,
    i: int,
    j: int,
    after: Seq<ClassSortKey>,
)
    requires
        insertion_inv(before, keys, i),
        i < keys.len(),
        0 <= j <= i,
        before[i].original_index == i,
        after.len() == before.len(),
        forall|k: int| 0 <= k < after.len() ==> #[trigger] after[k] == before[moved_from(before, i, j, k)],
    ensures
        forall|k: int|
            0 <= k < keys.len() ==> (#[trigger] after[k])@ == keys[after[k].original_index as int]
                && after[k].original_index < keys.len(),
        forall|k: int| i + 1 <= k < keys.len() ==> (#[trigger] after[k]).original_index == k,
        forall|k: int| 0 <= k < i + 1 ==> (#[trigger] after[k]).original_index < i + 1,
        forall|k1: int, k2: int|
            0 <= k1 < i + 1 && 0 <= k2 < i + 1 && k1 != k2 ==> (#[trigger] after[k1]).original_index
                != (#[trigger] after[k2]).original_index,
        forall|m: int| 0 <= m < i + 1 ==> #[trigger] index_present(after, i + 1, m),
{
    let n = keys.len();
    assert forall|k: int| 0 <= k < n implies (#[trigger] after[k])@ == keys[after[k].original_index as int]
        && after[k].original_index < n by {
        assert(after[k] == before[moved_from(before, i, j, k)]);
    }
    assert forall|k: int| i + 1 <= k < n implies (#[trigger] after[k]).original_index == k by {
        assert(after[k] == before[moved_from(before, i, j, k)]);
    }
    assert forall|k: int| 0 <= k < i + 1 implies (#[trigger] after[k]).original_index < i + 1 by {
        assert(after[k] == before[moved_from(before, i, j, k)]);
    }
    assert forall|k1: int, k2: int|
        0 <= k1 < i + 1 && 0 <= k2 < i + 1 && k1 != k2 implies (#[trigger] after[k1]).original_index
        != (#[trigger] after[k2]).original_index by {
        assert(after[k1] == before[moved_from(before, i, j, k1)]);
        assert(after[k2] == before[moved_from(before, i, j, k2)]);
    }
    assert forall|m: int| 0 <= m < i + 1 implies #[trigger] index_present(after, i + 1, m) by {
        if m == i {
            assert(after[j] == before[moved_from(before, i, j, j)]);
        } else {
            assert(index_present(before, i, m));
            let k0 = choose|k: int| 0 <= k < i && before[k].original_index == m;
            if k0 < j {
                assert(after[k0] == before[moved_from(before, i, j, k0)]);
            } else {
                assert(after[k0 + 1] == before[moved_from(before, i, j, k0 + 1)]);
            }
        }
    }
}

proof fn lemma_insertion_sorted(
    before: Seq<ClassSortKey>,
    keys: Seq<ClassKeyView>,
    i: int,
    j: int,
    after: Seq<ClassSortKey>,
)
    requires
        insertion_inv(before, keys, i),
        i < keys.len(),
        0 <= j <= i,
        before[i].original_index == i,
        after.len() == before.len(),
        forall|k: int| 0 <= k < after.len() ==> #[trigger] after[k] == before[moved_from(before, i, j, k)],
        forall|k: int| j <= k < i ==> class_less(before[i]@, (#[trigger] before[k])@),
        j == 0 || !class_less(before[i]@, before[j - 1]@),
    ensures
        forall|k: int| 0 <= k < i ==> comes_before(#[trigger] after[k]@, after[k + 1]@),
{
    let x = before[i];
    assert forall|k: int| 0 <= k < i implies comes_before(#[trigger] after[k]@, after[k + 1]@) by {
        assert(after[k] == before[moved_from(before, i, j, k)]);
        assert(after[k + 1] == before[moved_from(before, i, j, k + 1)]);
        if k + 1 == j {
            assert(before[k].original_index < i);
            lemma_not_less_follows(x@, before[k]@);
        } else if k == j {
            lemma_less_comes_before(x@, before[k]@);
        } else if k > j {
            assert(comes_before(before[k - 1]@, before[k]@));
        }
    }
}

/// Stable insertion sort of the class keys by `class_order`.
#[verifier::rlimit(60)]
pub fn sort_class_keys(v: &mut Vec<ClassSortKey>)
    requires
        indexed(views(old(v)@)),
    ensures
        final(v)@.len() == old(v)@.len(),
        forall|k: int|
            0 <= k < final(v)@.len() ==> (#[trigger] final(v)@[k])@
                == views(old(v)@)[final(v)@[k].original_index as int],
        is_sorted_arrangement(views(old(v)@), arrangement_of(final(v)@)),
        arrangement_of(final(v)@) == insertion_order(views(old(v)@), old(v)@.len()),
{
    let ghost keys = views(old(v)@);
    let n = v.len();
    if n == 0 {
        assert(is_sorted_arrangement(keys, arrangement_of(v@)));
        assert(arrangement_of(v@) =~= insertion_order(keys, 0));
        return;
    }
    assert forall|k: int| 0 <= k < n implies (#[trigger] v@[k])@ == keys[k] by {
        assert(keys[k] == v@[k]@);
    }
    assert(v@[0].original_index == 0);
    assert(index_present(v@, 1, 0));
    assert(insertion_inv(v@, keys, 1));
    assert(insertion_order(keys, 0) =~= Seq::<int>::empty());
    assert(insert_position(keys, Seq::<int>::empty(), 0) == 0);
    assert(insertion_order(keys, 1) =~= seq![0int]);
    assert(arrangement_of(v@).take(1) =~= insertion_order(keys, 1));
    let mut i: usize = 1;
    while i < n
        invariant
            n == keys.len(),
            keys == views(old(v)@),
            indexed(keys),
            insertion_inv(v@, keys, i as int),
            arrangement_of(v@).take(i as int) == insertion_order(keys, i as nat),
        decreases n - i,
    {
        let ghost before = v@;
        let ghost o = arrangement_of(before).take(i as int);
        let x = v.remove(i);
        let mut j: usize = i;
        assert(o.take(i as int) =~= o);
        while j > 0 && class_precedes(&x, &v[j - 1])
            invariant
                0 <= j <= i < n,
                before.len() == n,
                v@ == before.remove(i as int),
                x == before[i as int],
                o == arrangement_of(before).take(i as int),
                keys == views(old(v)@),
                insertion_inv(before, keys, i as int),
                forall|k: int| j <= k < i ==> class_less(x@, (#[trigger] before[k])@),
                insert_position(keys, o, i as int) == insert_position(keys, o.take(j as int), i as int),
            decreases j,
        {
            assert(v@[j - 1] == before[j - 1]);
            proof {
                let oj = o.take(j as int);
                assert(oj.last() == before[j - 1].original_index);
                assert(keys[i as int] == x@);
                assert(keys[oj.last()] == before[j - 1]@);
                assert(oj.drop_last() =~= o.take(j - 1));
            }
            j = j - 1;
        }
        proof {
            assert(keys[i as int] == x@);
            if j > 0 {
                assert(v@[j - 1] == before[j - 1]);
                let oj = o.take(j as int);
                assert(oj.last() == before[j - 1].original_index);
                assert(keys[oj.last()] == before[j - 1]@);
            } else {
                assert(o.take(0).len() == 0);
            }
            assert(insert_position(keys, o, i as int) == j);
        }
        v.insert(j, x);
        proof {
            lemma_moved(before, i as int, j as int, v@);
            lemma_insertion_indices(before, keys, i as int, j as int, v@);
            lemma_insertion_sorted(before, keys, i as int, j as int, v@);
            lemma_insertion_order_step(before, keys, i as int, j as int, v@);
        }
        i = i + 1;
    }
    assert(arrangement_of(v@).take(n as int) =~= arrangement_of(v@));
    proof {
        let p = arrangement_of(v@);
        assert forall|k: int| 0 <= k < n implies 0 <= #[trigger] p[k] < n by {
            assert(p[k] == v@[k].original_index);
        }
        assert forall|k1: int, k2: int| 0 <= k1 < n && 0 <= k2 < n && k1 != k2 implies #[trigger] p[k1]
            != #[trigger] p[k2] by {
            assert(p[k1] == v@[k1].original_index);
            assert(p[k2] == v@[k2].original_index);
        }
        assert forall|m: int| 0 <= m < n implies #[trigger] lists(p, m) by {
            assert(index_present(v@, n as int, m));
            let k0 = choose|k: int| 0 <= k < n && v@[k].original_index == m;
            assert(p[k0] == m);
        }
        assert forall|k: int| 0 <= k < p.len() - 1 implies comes_before(keys[#[trigger] p[k]], keys[p[k + 1]]) by {
            assert(comes_before(v@[k]@, v@[k + 1]@));
        }
    }
}

} // verus!

//! Properties of the order and of sorted arrangements that hold across inputs.
use vstd::prelude::*;
use std::cmp::Ordering;
use crate::order::{
    class_order, comes_before, compare_positions, compare_text,
    lemma_class_order_reverse, ClassKeyView,
};
use crate::sort::{indexed, is_sorted_arrangement, lists};
use crate::sorter::{
    arranged, class_list, classes_to_sort, first_occurrences, is_sorted_class_string, join_words,
    key_of_class, keys_of_classes, with_whitespace, SortOptions,
};
use crate::variants::{base_of, variant_count};
use crate::table::tailwind_table;
use crate::text::trim;

verus! {

/// In a sorted arrangement, a class placed right after an unknown class is
/// unknown too and comes later in the list.
proof fn lemma_step_after_unknown(keys: Seq<ClassKeyView>, p: Seq<int>, k: int)
    requires
        indexed(keys),
        is_sorted_arrangement(keys, p),
        0 <= k < p.len() - 1,
        keys[p[k]].order is None,
    ensures
        keys[p[k + 1]].order is None,
        p[k] < p[k + 1],
{
    reveal(comes_before);
    assert(comes_before(keys[p[k]], keys[p[k + 1]]));
    assert(0 <= p[k] < keys.len());
    assert(0 <= p[k + 1] < keys.len());
    assert(keys[p[k]].original_index == p[k]);
    assert(keys[p[k + 1]].original_index == p[k + 1]);
}

/// Unknown classes come last, in their original order: in a sorted
/// arrangement, whatever is placed after an unknown class is an unknown
/// class from later in the list.
pub proof fn unknown_classes_come_last(keys: Seq<ClassKeyView>, p: Seq<int>, k1: int, k2: int)
    requires
        indexed(keys),
        is_sorted_arrangement(keys, p),
        0 <= k1 < k2 < p.len(),
        keys[p[k1]].order is None,
    ensures
        keys[p[k2]].order is None,
        p[k1] < p[k2],
    decreases k2 - k1,
{
    lemma_step_after_unknown(keys, p, k1);
    if k1 + 1 < k2 {
        unknown_classes_come_last(keys, p, k1 + 1, k2);
    }
}

/// Known classes are placed by number of variants: one with fewer variants
/// never follows one with more.
pub proof fn fewer_variants_come_first(keys: Seq<ClassKeyView>, p: Seq<int>, k1: int, k2: int)
    requires
        indexed(keys),
        is_sorted_arrangement(keys, p),
        0 <= k1 < k2 < p.len(),
        keys[p[k1]].order is Some,
        keys[p[k2]].order is Some,
    ensures
        keys[p[k1]].variant_count <= keys[p[k2]].variant_count,
    decreases k2 - k1,
{
    reveal(comes_before);
    let k = k2 - 1;
    if keys[p[k]].order is None {
        unknown_classes_come_last(keys, p, k, k2);
    } else {
        assert(comes_before(keys[p[k]], keys[p[k2]]));
        if k1 < k {
            fewer_variants_come_first(keys, p, k1, k);
        }
    }
}

proof fn lemma_compare_positions_equal(a: Seq<usize>, b: Seq<usize>)
    requires
        compare_positions(a, b) == Ordering::Equal,
    ensures
        a == b,
    decreases a.len(),
{
    if a.len() > 0 && b.len() > 0 {
        lemma_compare_positions_equal(a.drop_first(), b.drop_first());
        assert(a =~= seq![a[0]] + a.drop_first());
        assert(b =~= seq![b[0]] + b.drop_first());
    } else {
        assert(a =~= b);
    }
}

proof fn lemma_compare_positions_transitive(a: Seq<usize>, b: Seq<usize>, c: Seq<usize>)
    requires
        compare_positions(a, b) == Ordering::Less,
        compare_positions(b, c) == Ordering::Less,
    ensures
        compare_positions(a, c) == Ordering::Less,
    decreases a.len(),
{
    if a.len() > 0 && b.len() > 0 && c.len() > 0 && a[0] == b[0] && b[0] == c[0] {
        lemma_compare_positions_transitive(a.drop_first(), b.drop_first(), c.drop_first());
    }
}

proof fn lemma_compare_text_equal(a: Seq<char>, b: Seq<char>)
    requires
        compare_text(a, b) == Ordering::Equal,
    ensures
        a == b,
    decreases a.len(),
{
    if a.len() > 0 && b.len() > 0 {
        lemma_compare_text_equal(a.drop_first(), b.drop_first());
        assert(a =~= seq![a[0]] + a.drop_first());
        assert(b =~= seq![b[0]] + b.drop_first());
    } else {
        assert(a =~= b);
    }
}

proof fn lemma_compare_text_transitive(a: Seq<char>, b: Seq<char>, c: Seq<char>)
    requires
        compare_text(a, b) == Ordering::Less,
        compare_text(b, c) == Ordering::Less,
    ensures
        compare_text(a, c) == Ordering::Less,
    decreases a.len(),
{
    if a.len() > 0 && b.len() > 0 && c.len() > 0 && a[0] == b[0] && b[0] == c[0] {
        lemma_compare_text_transitive(a.drop_first(), b.drop_first(), c.drop_first());
    }
}

/// Two classes compare `Equal` only when their keys agree in all that the
/// comparison reads: for known classes the variant count, property
/// positions, number of declarations and base class; for unknown ones the
/// position in the list.
pub proof fn class_order_equal(a: ClassKeyView, b: ClassKeyView)
    requires
        class_order(a, b) == Ordering::Equal,
    ensures
        a.order == b.order,
        a.order is Some ==> a.variant_count == b.variant_count && a.count == b.count
            && a.base_class == b.base_class,
        a.order is None ==> a.original_index == b.original_index,
{
    if a.order is Some && b.order is Some {
        lemma_compare_positions_equal(a.order->0, b.order->0);
        lemma_compare_text_equal(a.base_class, b.base_class);
    }
}

/// Classes that compare `Equal` compare alike with every other class.
proof fn lemma_equal_substitutes(a: ClassKeyView, b: ClassKeyView, x: ClassKeyView)
    requires
        class_order(a, b) == Ordering::Equal,
    ensures
        class_order(a, x) == class_order(b, x),
        class_order(x, a) == class_order(x, b),
{
    class_order_equal(a, b);
}

/// Comparing less is transitive.
pub proof fn class_less_transitive(a: ClassKeyView, b: ClassKeyView, c: ClassKeyView)
    requires
        class_order(a, b) == Ordering::Less,
        class_order(b, c) == Ordering::Less,
    ensures
        class_order(a, c) == Ordering::Less,
{
    if a.order is Some && b.order is Some && c.order is Some {
        let (ao, bo, co) = (a.order->0, b.order->0, c.order->0);
        if compare_positions(ao, bo) == Ordering::Less && compare_positions(bo, co)
            == Ordering::Less {
            lemma_compare_positions_transitive(ao, bo, co);
        }
        if compare_positions(ao, bo) == Ordering::Equal {
            lemma_compare_positions_equal(ao, bo);
        }
        if compare_positions(bo, co) == Ordering::Equal {
            lemma_compare_positions_equal(bo, co);
        }
        if compare_text(a.base_class, b.base_class) == Ordering::Less && compare_text(
            b.base_class,
            c.base_class,
        ) == Ordering::Less {
            lemma_compare_text_transitive(a.base_class, b.base_class, c.base_class);
        }
    }
}

/// `class_order` is a total preorder: not greater and not greater gives not
/// greater, so a sort by it is well defined.
pub proof fn class_order_transitive(a: ClassKeyView, b: ClassKeyView, c: ClassKeyView)
    requires
        class_order(a, b) != Ordering::Greater,
        class_order(b, c) != Ordering::Greater,
    ensures
        class_order(a, c) != Ordering::Greater,
{
    if class_order(a, b) == Ordering::Equal {
        lemma_equal_substitutes(a, b, c);
    } else if class_order(b, c) == Ordering::Equal {
        lemma_equal_substitutes(b, c, a);
    } else {
        class_less_transitive(a, b, c);
    }
}

/// `comes_before` is transitive.
pub proof fn comes_before_transitive(a: ClassKeyView, b: ClassKeyView, c: ClassKeyView)
    requires
        comes_before(a, b),
        comes_before(b, c),
    ensures
        comes_before(a, c),
{
    reveal(comes_before);
    if class_order(a, b) == Ordering::Equal {
        lemma_equal_substitutes(a, b, c);
    } else if class_order(b, c) == Ordering::Equal {
        lemma_equal_substitutes(b, c, a);
    } else {
        class_less_transitive(a, b, c);
    }
}

/// `comes_before` is asymmetric.
pub proof fn comes_before_asymmetric(a: ClassKeyView, b: ClassKeyView)
    requires
        comes_before(a, b),
    ensures
        !comes_before(b, a),
{
    reveal(comes_before);
    lemma_class_order_reverse(a, b);
}

/// A sorted arrangement is sorted throughout, not only between neighbours.
pub proof fn sorted_throughout(keys: Seq<ClassKeyView>, p: Seq<int>, k1: int, k2: int)
    requires
        is_sorted_arrangement(keys, p),
        0 <= k1 < k2 < p.len(),
    ensures
        comes_before(keys[p[k1]], keys[p[k2]]),
    decreases k2 - k1,
{
    assert(comes_before(keys[p[k2 - 1]], keys[p[k2]]));
    if k1 < k2 - 1 {
        sorted_throughout(keys, p, k1, k2 - 1);
        assert(0 <= p[k1] < keys.len() && 0 <= p[k2 - 1] < keys.len() && 0 <= p[k2] < keys.len());
        comes_before_transitive(keys[p[k1]], keys[p[k2 - 1]], keys[p[k2]]);
    }
}

proof fn lemma_agree_at(keys: Seq<ClassKeyView>, p: Seq<int>, q: Seq<int>, k: int)
    requires
        is_sorted_arrangement(keys, p),
        is_sorted_arrangement(keys, q),
        0 <= k < p.len(),
        forall|j: int| 0 <= j < k ==> p[j] == q[j],
    ensures
        p[k] == q[k],
{
    let n = keys.len();
    let a = p[k];
    let b = q[k];
    if a != b {
        assert(lists(p, b));
        let kb = choose|j: int| 0 <= j < p.len() && p[j] == b;
        assert(lists(q, a));
        let ka = choose|j: int| 0 <= j < q.len() && q[j] == a;
        if kb < k {
            assert(q[kb] == b);
        }
        if ka < k {
            assert(p[ka] == a);
        }
        assert(kb > k && ka > k);
        sorted_throughout(keys, p, k, kb);
        sorted_throughout(keys, q, k, ka);
        comes_before_asymmetric(keys[a], keys[b]);
    }
}

proof fn lemma_agree_below(keys: Seq<ClassKeyView>, p: Seq<int>, q: Seq<int>, k: int)
    requires
        is_sorted_arrangement(keys, p),
        is_sorted_arrangement(keys, q),
        0 <= k <= p.len(),
    ensures
        forall|j: int| 0 <= j < k ==> p[j] == q[j],
    decreases k,
{
    if k > 0 {
        lemma_agree_below(keys, p, q, k - 1);
        lemma_agree_at(keys, p, q, k - 1);
    }
}

/// There is exactly one sorted arrangement: the sort leaves nothing open.
pub proof fn sorted_arrangement_unique(keys: Seq<ClassKeyView>, p: Seq<int>, q: Seq<int>)
    requires
        is_sorted_arrangement(keys, p),
        is_sorted_arrangement(keys, q),
    ensures
        p == q,
{
    lemma_agree_below(keys, p, q, p.len() as int);
    assert(p =~= q);
}

/// The sort of a class string is determined: two results of sorting it are
/// equal.
pub proof fn sort_is_determined(opts: SortOptions, s: Seq<char>, out1: Seq<char>, out2: Seq<char>)
    requires
        is_sorted_class_string(opts, s, out1),
        is_sorted_class_string(opts, s, out2),
    ensures
        out1 == out2,
{
    if s.len() > 0 && trim(s).len() > 0 {
        let cs = classes_to_sort(opts, s);
        let keys = keys_of_classes(tailwind_table(), cs);
        let p = choose|p: Seq<int>|
            is_sorted_arrangement(keys, p) && out1 == with_whitespace(
                opts,
                s,
                join_words(arranged(cs, p)),
            );
        let q = choose|p: Seq<int>|
            is_sorted_arrangement(keys, p) && out2 == with_whitespace(
                opts,
                s,
                join_words(arranged(cs, p)),
            );
        sorted_arrangement_unique(keys, p, q);
    }
}

/// Keeping first occurrences leaves no class twice, and keeps every class.
pub proof fn first_occurrences_distinct(cs: Seq<Seq<char>>)
    ensures
        forall|i: int, j: int|
            0 <= i < j < first_occurrences(cs).len() ==> first_occurrences(cs)[i]
                != first_occurrences(cs)[j],
        forall|c: Seq<char>| #[trigger] first_occurrences(cs).contains(c) <==> cs.contains(c),
    decreases cs.len(),
{
    if cs.len() > 0 {
        let d = first_occurrences(cs.drop_last());
        first_occurrences_distinct(cs.drop_last());
        assert forall|c: Seq<char>| #[trigger] first_occurrences(cs).contains(c) <==> cs.contains(c) by {
            if cs.contains(c) {
                let k = choose|k: int| 0 <= k < cs.len() && cs[k] == c;
                if k < cs.len() - 1 {
                    assert(cs.drop_last()[k] == c);
                    assert(cs.drop_last().contains(c));
                    assert(d.contains(c));
                    if !d.contains(cs.last()) {
                        let m = choose|m: int| 0 <= m < d.len() && d[m] == c;
                        assert(d.push(cs.last())[m] == c);
                    }
                } else if d.contains(cs.last()) {
                    assert(d.contains(c));
                } else {
                    assert(d.push(cs.last())[d.len() as int] == c);
                }
            }
            if first_occurrences(cs).contains(c) {
                if c == cs.last() {
                    assert(cs[cs.len() - 1] == c);
                } else {
                    let m = choose|m: int| 0 <= m < first_occurrences(cs).len() && first_occurrences(cs)[m] == c;
                    if !d.contains(cs.last()) && m == d.len() {
                        assert(false);
                    }
                    assert(d[m] == c);
                    assert(d.contains(c));
                    let k = choose|k: int| 0 <= k < cs.drop_last().len() && cs.drop_last()[k] == c;
                    assert(cs[k] == c);
                }
            }
        }
    }
}

/// The key of a class wherever it stands (its position only matters for
/// unknown classes).
pub open spec fn word_key(w: Seq<char>) -> ClassKeyView {
    key_of_class(tailwind_table(), w, 0)
}

/// Class `x` compares less than class `y`.
pub open spec fn word_less(x: Seq<char>, y: Seq<char>) -> bool {
    class_order(word_key(x), word_key(y)) == Ordering::Less
}

/// Classes that are all different and all known, no two of which have the
/// same variant count and base utility.
pub open spec fn distinct_known_classes(cs: Seq<Seq<char>>) -> bool {
    &&& forall|i: int, j: int| 0 <= i < j < cs.len() ==> cs[i] != cs[j]
    &&& forall|i: int| 0 <= i < cs.len() ==> (#[trigger] word_key(cs[i])).order is Some
    &&& forall|i: int, j: int|
        0 <= i < cs.len() && 0 <= j < cs.len() && i != j ==> variant_count(#[trigger] cs[i])
            != variant_count(#[trigger] cs[j]) || base_of(cs[i]) != base_of(cs[j])
}

proof fn lemma_word_less_asymmetric(x: Seq<char>, y: Seq<char>)
    ensures
        word_less(x, y) ==> !word_less(y, x),
        !word_less(x, x),
{
    lemma_class_order_reverse(word_key(x), word_key(y));
    lemma_class_order_reverse(word_key(x), word_key(x));
}

proof fn lemma_increasing_unique(a: Seq<Seq<char>>, b: Seq<Seq<char>>)
    requires
        forall|i: int, j: int| 0 <= i < j < a.len() ==> word_less(a[i], a[j]),
        forall|i: int, j: int| 0 <= i < j < b.len() ==> word_less(b[i], b[j]),
        forall|x: Seq<char>| a.contains(x) <==> b.contains(x),
    ensures
        a == b,
    decreases a.len() + b.len(),
{
    if a.len() == 0 || b.len() == 0 {
        if a.len() > 0 {
            assert(a.contains(a[0]));
        }
        if b.len() > 0 {
            assert(b.contains(b[0]));
        }
        assert(a =~= b);
    } else {
        assert(a.contains(a[0]));
        assert(b.contains(b[0]));
        let ia = choose|i: int| 0 <= i < a.len() && a[i] == b[0];
        let ib = choose|i: int| 0 <= i < b.len() && b[i] == a[0];
        lemma_word_less_asymmetric(a[0], b[0]);
        assert(a[0] == b[0]) by {
            if a[0] != b[0] {
                assert(ia > 0 && ib > 0);
                assert(word_less(a[0], a[ia]));
                assert(word_less(b[0], b[ib]));
            }
        }
        let a1 = a.drop_first();
        let b1 = b.drop_first();
        assert forall|x: Seq<char>| a1.contains(x) <==> b1.contains(x) by {
            if a1.contains(x) {
                let i = choose|i: int| 0 <= i < a1.len() && a1[i] == x;
                assert(a[i + 1] == x);
                assert(word_less(a[0], a[i + 1]));
                lemma_word_less_asymmetric(x, x);
                assert(b.contains(x));
                let j = choose|j: int| 0 <= j < b.len() && b[j] == x;
                assert(j != 0);
                assert(b1[j - 1] == x);
            }
            if b1.contains(x) {
                let i = choose|i: int| 0 <= i < b1.len() && b1[i] == x;
                assert(b[i + 1] == x);
                assert(word_less(b[0], b[i + 1]));
                lemma_word_less_asymmetric(x, x);
                assert(a.contains(x));
                let j = choose|j: int| 0 <= j < a.len() && a[j] == x;
                assert(j != 0);
                assert(a1[j - 1] == x);
            }
        }
        assert forall|i: int, j: int| 0 <= i < j < a1.len() implies word_less(a1[i], a1[j]) by {
            assert(a1[i] == a[i + 1] && a1[j] == a[j + 1]);
        }
        assert forall|i: int, j: int| 0 <= i < j < b1.len() implies word_less(b1[i], b1[j]) by {
            assert(b1[i] == b[i + 1] && b1[j] == b[j + 1]);
        }
        lemma_increasing_unique(a1, b1);
        assert(a =~= seq![a[0]] + a1);
        assert(b =~= seq![b[0]] + b1);
    }
}

/// A sorted arrangement of distinct known classes lists them in increasing
/// order, and holds exactly the classes.
proof fn lemma_sorted_words(cs: Seq<Seq<char>>, p: Seq<int>)
    requires
        distinct_known_classes(cs),
        is_sorted_arrangement(keys_of_classes(tailwind_table(), cs), p),
    ensures
        forall|i: int, j: int|
            0 <= i < j < arranged(cs, p).len() ==> word_less(arranged(cs, p)[i], arranged(cs, p)[j]),
        forall|x: Seq<char>| arranged(cs, p).contains(x) <==> cs.contains(x),
{
    let ws = arranged(cs, p);
    assert forall|k: int| 0 <= k < ws.len() - 1 implies word_less(#[trigger] ws[k], ws[k + 1]) by {
        lemma_adjacent_less(cs, p, k);
    }
    assert forall|i: int, j: int| 0 <= i < j < ws.len() implies word_less(ws[i], ws[j]) by {
        lemma_less_throughout(cs, p, i, j);
    }
    assert forall|x: Seq<char>| ws.contains(x) <==> cs.contains(x) by {
        if ws.contains(x) {
            let k = choose|k: int| 0 <= k < ws.len() && ws[k] == x;
            assert(0 <= p[k] < cs.len());
        }
        if cs.contains(x) {
            let i = choose|i: int| 0 <= i < cs.len() && cs[i] == x;
            assert(lists(p, i));
            let k = choose|k: int| 0 <= k < p.len() && p[k] == i;
            assert(ws[k] == x);
        }
    }
}

/// Neighbours in a sorted arrangement of distinct known classes compare less.
proof fn lemma_adjacent_less(cs: Seq<Seq<char>>, p: Seq<int>, k: int)
    requires
        distinct_known_classes(cs),
        is_sorted_arrangement(keys_of_classes(tailwind_table(), cs), p),
        0 <= k < p.len() - 1,
    ensures
        word_less(arranged(cs, p)[k], arranged(cs, p)[k + 1]),
{
    let keys = keys_of_classes(tailwind_table(), cs);
    reveal(comes_before);
    assert(comes_before(keys[p[k]], keys[p[k + 1]]));
    let (x, y) = (p[k], p[k + 1]);
    assert(0 <= x < cs.len() && 0 <= y < cs.len() && x != y);
    assert(word_key(cs[x]).order is Some);
    assert(word_key(cs[y]).order is Some);
    assert(class_order(keys[x], keys[y]) == class_order(word_key(cs[x]), word_key(cs[y])));
    if class_order(keys[x], keys[y]) == Ordering::Equal {
        class_order_equal(word_key(cs[x]), word_key(cs[y]));
        assert(variant_count(cs[x]) != variant_count(cs[y]) || base_of(cs[x]) != base_of(cs[y]));
    }
}

/// Any two classes of such an arrangement, the earlier one compares less.
proof fn lemma_less_throughout(cs: Seq<Seq<char>>, p: Seq<int>, i: int, j: int)
    requires
        distinct_known_classes(cs),
        is_sorted_arrangement(keys_of_classes(tailwind_table(), cs), p),
        forall|k: int|
            0 <= k < p.len() - 1 ==> word_less(
                #[trigger] arranged(cs, p)[k],
                arranged(cs, p)[k + 1],
            ),
        0 <= i < j < p.len(),
    ensures
        word_less(arranged(cs, p)[i], arranged(cs, p)[j]),
    decreases j - i,
{
    let ws = arranged(cs, p);
    assert(word_less(ws[j - 1], ws[j]));
    if i < j - 1 {
        lemma_less_throughout(cs, p, i, j - 1);
        assert(0 <= p[i] < cs.len() && 0 <= p[j - 1] < cs.len() && 0 <= p[j] < cs.len());
        assert(ws[i] == cs[p[i]] && ws[j - 1] == cs[p[j - 1]] && ws[j] == cs[p[j]]);
        class_less_transitive(word_key(ws[i]), word_key(ws[j - 1]), word_key(ws[j]));
    }
}

/// The result of a sort does not depend on the order of the input classes
/// when they are distinct, all known, and no two share their variant count
/// and base utility (ties, and unknown classes, keep their input order).
pub proof fn sort_ignores_input_order(
    opts: SortOptions,
    s1: Seq<char>,
    s2: Seq<char>,
    out1: Seq<char>,
    out2: Seq<char>,
)
    requires
        !opts.preserve_whitespace,
        distinct_known_classes(classes_to_sort(opts, s1)),
        distinct_known_classes(classes_to_sort(opts, s2)),
        classes_to_sort(opts, s1).len() > 0,
        forall|c: Seq<char>|
            classes_to_sort(opts, s1).contains(c) <==> classes_to_sort(opts, s2).contains(c),
        is_sorted_class_string(opts, s1, out1),
        is_sorted_class_string(opts, s2, out2),
    ensures
        out1 == out2,
{
    let cs1 = classes_to_sort(opts, s1);
    let cs2 = classes_to_sort(opts, s2);
    assert(cs1.contains(cs1[0]));
    assert(cs2.len() > 0);
    lemma_classes_need_text(opts, s1);
    lemma_classes_need_text(opts, s2);
    let keys1 = keys_of_classes(tailwind_table(), cs1);
    let keys2 = keys_of_classes(tailwind_table(), cs2);
    let p1 = choose|p: Seq<int>|
        is_sorted_arrangement(keys1, p) && out1 == with_whitespace(
            opts,
            s1,
            join_words(arranged(cs1, p)),
        );
    let p2 = choose|p: Seq<int>|
        is_sorted_arrangement(keys2, p) && out2 == with_whitespace(
            opts,
            s2,
            join_words(arranged(cs2, p)),
        );
    lemma_sorted_words(cs1, p1);
    lemma_sorted_words(cs2, p2);
    let w1 = arranged(cs1, p1);
    let w2 = arranged(cs2, p2);
    assert forall|x: Seq<char>| w1.contains(x) <==> w2.contains(x) by {
        assert(w1.contains(x) <==> cs1.contains(x));
        assert(w2.contains(x) <==> cs2.contains(x));
    }
    lemma_increasing_unique(w1, w2);
}

/// A string with classes to sort is neither empty nor blank.
proof fn lemma_classes_need_text(opts: SortOptions, s: Seq<char>)
    requires
        classes_to_sort(opts, s).len() > 0,
    ensures
        s.len() > 0,
        trim(s).len() > 0,
{
    if trim(s).len() == 0 {
        assert(class_list(s) =~= Seq::<Seq<char>>::empty());
        assert(first_occurrences(Seq::<Seq<char>>::empty()) =~= Seq::<Seq<char>>::empty());
    }
    if s.len() == 0 {
        assert(trim(s) =~= Seq::<char>::empty());
    }
}

} // verus!

//! The order of classes: keys, their comparison, and a stable sort by it.
use vstd::prelude::*;
use std::cmp::Ordering;

verus! {

/// The sort key of one class of a class list.
#[derive(Debug)]
pub struct ClassSortKey {
    /// Number of variant prefixes (`hover:md:` is two).
    pub variant_count: usize,
    /// The property positions of its utility, or `None` for an unknown class.
    pub order: Option<Vec<usize>>,
    /// Number of CSS declarations of its utility (0 for an unknown class).
    pub count: usize,
    /// The class without its variants.
    pub base_class: Vec<char>,
    /// Position of the class in the list.
    pub original_index: usize,
}

pub struct ClassKeyView {
    pub variant_count: nat,
    pub order: Option<Seq<usize>>,
    pub count: nat,
    pub base_class: Seq<char>,
    pub original_index: nat,
}

impl View for ClassSortKey {
    type V = ClassKeyView;

    open spec fn view(&self) -> ClassKeyView {
        ClassKeyView {
            variant_count: self.variant_count as nat,
            order: match self.order {
                Some(o) => Some(o@),
                None => None,
            },
            count: self.count as nat,
            base_class: self.base_class@,
            original_index: self.original_index as nat,
        }
    }
}

/// Three-way comparison of natural numbers.
pub open spec fn compare_nat(a: nat, b: nat) -> Ordering {
    if a < b {
        Ordering::Less
    } else if a == b {
        Ordering::Equal
    } else {
        Ordering::Greater
    }
}

/// Three-way comparison of property positions.
pub open spec fn compare_position(a: usize, b: usize) -> Ordering {
    if a < b {
        Ordering::Less
    } else if a == b {
        Ordering::Equal
    } else {
        Ordering::Greater
    }
}

/// Compare property positions element by element, a missing position
/// counting as later than every present one: of two lists where one is a
/// prefix of the other, the longer comes first.
pub open spec fn compare_positions(a: Seq<usize>, b: Seq<usize>) -> Ordering
    decreases a.len(),
{
    if a.len() == 0 && b.len() == 0 {
        Ordering::Equal
    } else if a.len() == 0 {
        Ordering::Greater
    } else if b.len() == 0 {
        Ordering::Less
    } else if a[0] != b[0] {
        compare_position(a[0], b[0])
    } else {
        compare_positions(a.drop_first(), b.drop_first())
    }
}

/// Lexicographic order of texts by code point, a proper prefix first: the
/// order of `str::cmp` (UTF-8 byte order is code point order).
pub open spec fn compare_text(a: Seq<char>, b: Seq<char>) -> Ordering
    decreases a.len(),
{
    if a.len() == 0 && b.len() == 0 {
        Ordering::Equal
    } else if a.len() == 0 {
        Ordering::Less
    } else if b.len() == 0 {
        Ordering::Greater
    } else if a[0] != b[0] {
        if a[0] < b[0] {
            Ordering::Less
        } else {
            Ordering::Greater
        }
    } else {
        compare_text(a.drop_first(), b.drop_first())
    }
}

/// Tailwind's comparison of two classes:
/// unknown classes after known ones, unknown ones among themselves by
/// position; known ones by number of variants (fewer first), then by property
/// positions element by element (a class whose positions run out first comes
/// after, so one with no position at all comes after every class with some),
/// then by number of declarations (more first), then by base class text.
pub open spec fn class_order(a: ClassKeyView, b: ClassKeyView) -> Ordering {
    match (a.order, b.order) {
        (None, None) => compare_nat(a.original_index, b.original_index),
        (None, Some(_)) => Ordering::Greater,
        (Some(_), None) => Ordering::Less,
        (Some(ao), Some(bo)) => if a.variant_count != b.variant_count {
            compare_nat(a.variant_count, b.variant_count)
        } else if compare_positions(ao, bo) != Ordering::Equal {
            compare_positions(ao, bo)
        } else if a.count != b.count {
            compare_nat(b.count, a.count)
        } else {
            compare_text(a.base_class, b.base_class)
        },
    }
}

/// `a` compares less than `b`.
#[verifier::opaque]
pub open spec fn class_less(a: ClassKeyView, b: ClassKeyView) -> bool {
    class_order(a, b) == Ordering::Less
}

/// `a` comes before `b` in a stable sort by `class_order`: it compares less,
/// or equal and was earlier in the list.
#[verifier::opaque]
pub open spec fn comes_before(a: ClassKeyView, b: ClassKeyView) -> bool {
    ||| class_order(a, b) == Ordering::Less
    ||| (class_order(a, b) == Ordering::Equal && a.original_index < b.original_index)
}

pub open spec fn reversed(o: Ordering) -> Ordering {
    match o {
        Ordering::Less => Ordering::Greater,
        Ordering::Equal => Ordering::Equal,
        Ordering::Greater => Ordering::Less,
    }
}

proof fn lemma_compare_positions_reverse(a: Seq<usize>, b: Seq<usize>)
    ensures
        compare_positions(b, a) == reversed(compare_positions(a, b)),
    decreases a.len(),
{
    if a.len() > 0 && b.len() > 0 && a[0] == b[0] {
        lemma_compare_positions_reverse(a.drop_first(), b.drop_first());
    }
}

proof fn lemma_compare_text_reverse(a: Seq<char>, b: Seq<char>)
    ensures
        compare_text(b, a) == reversed(compare_text(a, b)),
    decreases a.len(),
{
    if a.len() > 0 && b.len() > 0 && a[0] == b[0] {
        lemma_compare_text_reverse(a.drop_first(), b.drop_first());
    }
}

/// Swapping the classes reverses their comparison.
pub proof fn lemma_class_order_reverse(a: ClassKeyView, b: ClassKeyView)
    ensures
        class_order(b, a) == reversed(class_order(a, b)),
{
    if a.order is Some && b.order is Some {
        lemma_compare_positions_reverse(a.order->0, b.order->0);
        lemma_compare_text_reverse(a.base_class, b.base_class);
    }
}

/// A class that does not compare less than an earlier one may follow it.
pub proof fn lemma_not_less_follows(x: ClassKeyView, y: ClassKeyView)
    requires
        !class_less(x, y),
        y.original_index < x.original_index,
    ensures
        comes_before(y, x),
{
    reveal(comes_before);
    reveal(class_less);
    lemma_class_order_reverse(x, y);
}

/// A class that compares less than another may precede it.
pub proof fn lemma_less_comes_before(x: ClassKeyView, y: ClassKeyView)
    requires
        class_less(x, y),
    ensures
        comes_before(x, y),
{
    reveal(comes_before);
    reveal(class_less);
}

/// A class that may precede another does not compare less than it the other way round.
pub proof fn lemma_before_not_less(x: ClassKeyView, y: ClassKeyView)
    requires
        comes_before(x, y),
    ensures
        !class_less(y, x),
{
    reveal(comes_before);
    reveal(class_less);
    lemma_class_order_reverse(x, y);
}

/// Whether `a` compares less than `b`.
pub fn class_precedes(a: &ClassSortKey, b: &ClassSortKey) -> (r: bool)
    ensures
        r == class_less(a@, b@),
{
    reveal(class_less);
    match compare_classes(a, b) {
        Ordering::Less => true,
        _ => false,
    }
}

/// Compare two classes as Tailwind does.
#[verifier::loop_isolation(false)]
pub fn compare_classes(a: &ClassSortKey, b: &ClassSortKey) -> (r: Ordering)
    ensures
        r == class_order(a@, b@),
{
    match (&a.order, &b.order) {
        (None, None) => {
            if a.original_index < b.original_index {
                Ordering::Less
            } else if a.original_index == b.original_index {
                Ordering::Equal
            } else {
                Ordering::Greater
            }
        },
        (None, Some(_)) => Ordering::Greater,
        (Some(_), None) => Ordering::Less,
        (Some(a_order), Some(b_order)) => {
            if a.variant_count != b.variant_count {
                if a.variant_count < b.variant_count {
                    return Ordering::Less;
                } else {
                    return Ordering::Greater;
                }
            }
            let ghost ao = a_order@;
            let ghost bo = b_order@;
            let mut offset: usize = 0;
            let ghost mut g: int = 0;
            assert(ao.skip(0) =~= ao);
            assert(bo.skip(0) =~= bo);
            while offset < a_order.len() && offset < b_order.len()
                invariant
                    g == offset,
                    ao == a_order@,
                    bo == b_order@,
                    offset <= ao.len(),
                    offset <= bo.len(),
                    compare_positions(ao, bo) == compare_positions(ao.skip(g), bo.skip(g)),
                decreases ao.len() - offset,
            {
                let x = a_order[offset];
                let y = b_order[offset];
                assert(ao.skip(g)[0] == x);
                assert(bo.skip(g)[0] == y);
                if x != y {
                    if x < y {
                        return Ordering::Less;
                    } else {
                        return Ordering::Greater;
                    }
                }
                assert(ao.skip(g).drop_first() =~= ao.skip(g + 1));
                assert(bo.skip(g).drop_first() =~= bo.skip(g + 1));
                offset = offset + 1;
                proof {
                    g = g + 1;
                }
            }
            if offset < a_order.len() {
                return Ordering::Less;
            }
            if offset < b_order.len() {
                return Ordering::Greater;
            }
            if a.count != b.count {
                if b.count < a.count {
                    return Ordering::Less;
                } else {
                    return Ordering::Greater;
                }
            }
            compare_chars(&a.base_class, &b.base_class)
        },
    }
}

/// Compare two texts by code point.
pub fn compare_chars(a: &Vec<char>, b: &Vec<char>) -> (r: Ordering)
    ensures
        r == compare_text(a@, b@),
{
    let mut i: usize = 0;
    let ghost mut g: int = 0;
    assert(a@.skip(0) =~= a@);
    assert(b@.skip(0) =~= b@);
    while i < a.len() && i < b.len()
        invariant
            g == i,
            i <= a@.len(),
            i <= b@.len(),
            compare_text(a@, b@) == compare_text(a@.skip(g), b@.skip(g)),
        decreases a@.len() - i,
    {
        let x = a[i];
        let y = b[i];
        assert(a@.skip(g)[0] == x);
        assert(b@.skip(g)[0] == y);
        if x != y {
            if x < y {
                return Ordering::Less;
            } else {
                return Ordering::Greater;
            }
        }
        assert(a@.skip(g).drop_first() =~= a@.skip(g + 1));
        assert(b@.skip(g).drop_first() =~= b@.skip(g + 1));
        i = i + 1;
        proof {
            g = g + 1;
        }
    }
    if i == a.len() && i == b.len() {
        Ordering::Equal
    } else if i == a.len() {
        Ordering::Less
    } else {
        Ordering::Greater
    }
}

/// Text order is the order of `str::cmp`: a text comes before every longer
/// text that starts with it.
pub proof fn compare_text_prefix_first(a: Seq<char>, b: Seq<char>)
    requires
        b.len() > 0,
    ensures
        compare_text(a, a + b) == Ordering::Less,
        compare_text(a + b, a) == Ordering::Greater,
    decreases a.len(),
{
    if a.len() > 0 {
        assert((a + b).drop_first() =~= a.drop_first() + b);
        assert((a + b)[0] == a[0]);
        compare_text_prefix_first(a.drop_first(), b);
    } else {
        assert(a + b =~= b);
    }
}

/// Text order is the order of `str::cmp`: after a common start, the text
/// with the smaller code point comes first, whatever follows.
pub proof fn compare_text_first_difference(
    a: Seq<char>,
    x: char,
    y: char,
    b: Seq<char>,
    c: Seq<char>,
)
    requires
        x < y,
    ensures
        compare_text(a + seq![x] + b, a + seq![y] + c) == Ordering::Less,
        compare_text(a + seq![y] + c, a + seq![x] + b) == Ordering::Greater,
    decreases a.len(),
{
    let l = a + seq![x] + b;
    let r = a + seq![y] + c;
    if a.len() > 0 {
        assert(l.drop_first() =~= a.drop_first() + seq![x] + b);
        assert(r.drop_first() =~= a.drop_first() + seq![y] + c);
        assert(l[0] == a[0] && r[0] == a[0]);
        compare_text_first_difference(a.drop_first(), x, y, b, c);
    } else {
        assert(l[0] == x && r[0] == y);
    }
}

/// Equal texts compare `Equal`.
pub proof fn compare_text_reflexive(a: Seq<char>)
    ensures
        compare_text(a, a) == Ordering::Equal,
    decreases a.len(),
{
    if a.len() > 0 {
        compare_text_reflexive(a.drop_first());
    }
}

/// Property positions: of two lists where one continues the other, the
/// longer comes first (a missing position counts as later than any).
pub proof fn compare_positions_longer_first(a: Seq<usize>, b: Seq<usize>)
    requires
        b.len() > 0,
    ensures
        compare_positions(a + b, a) == Ordering::Less,
        compare_positions(a, a + b) == Ordering::Greater,
    decreases a.len(),
{
    if a.len() > 0 {
        assert((a + b).drop_first() =~= a.drop_first() + b);
        assert((a + b)[0] == a[0]);
        compare_positions_longer_first(a.drop_first(), b);
    } else {
        assert(a + b =~= b);
    }
}

/// Property positions: after a common start, the list with the smaller
/// position comes first, whatever follows.
pub proof fn compare_positions_first_difference(
    a: Seq<usize>,
    x: usize,
    y: usize,
    b: Seq<usize>,
    c: Seq<usize>,
)
    requires
        x < y,
    ensures
        compare_positions(a + seq![x] + b, a + seq![y] + c) == Ordering::Less,
        compare_positions(a + seq![y] + c, a + seq![x] + b) == Ordering::Greater,
    decreases a.len(),
{
    let l = a + seq![x] + b;
    let r = a + seq![y] + c;
    if a.len() > 0 {
        assert(l.drop_first() =~= a.drop_first() + seq![x] + b);
        assert(r.drop_first() =~= a.drop_first() + seq![y] + c);
        assert(l[0] == a[0] && r[0] == a[0]);
        compare_positions_first_difference(a.drop_first(), x, y, b, c);
    } else {
        assert(l[0] == x && r[0] == y);
    }
}

/// Equal position lists compare `Equal`.
pub proof fn compare_positions_reflexive(a: Seq<usize>)
    ensures
        compare_positions(a, a) == Ordering::Equal,
    decreases a.len(),
{
    if a.len() > 0 {
        compare_positions_reflexive(a.drop_first());
    }
}

/// The rules of the class comparison, in the order they apply: an unknown
/// class comes after a known one and unknown classes keep their list order;
/// among known classes fewer variants come first, then earlier property
/// positions, then more declarations, then the base text in `str::cmp` order.
pub proof fn class_order_rules(a: ClassKeyView, b: ClassKeyView)
    ensures
        a.order is None && b.order is Some ==> class_order(a, b) == Ordering::Greater,
        a.order is Some && b.order is None ==> class_order(a, b) == Ordering::Less,
        a.order is None && b.order is None && a.original_index < b.original_index ==> class_order(
            a,
            b,
        ) == Ordering::Less,
        a.order is Some && b.order is Some && a.variant_count < b.variant_count ==> class_order(
            a,
            b,
        ) == Ordering::Less,
        a.order is Some && b.order is Some && a.variant_count == b.variant_count
            && compare_positions(a.order->0, b.order->0) == Ordering::Less ==> class_order(a, b)
            == Ordering::Less,
        a.order is Some && b.order is Some && a.variant_count == b.variant_count && a.order
            == b.order && a.count > b.count ==> class_order(a, b) == Ordering::Less,
        a.order is Some && b.order is Some && a.variant_count == b.variant_count && a.order
            == b.order && a.count == b.count ==> class_order(a, b) == compare_text(
            a.base_class,
            b.base_class,
        ),
{
    if a.order is Some && b.order is Some {
        compare_positions_reflexive(a.order->0);
    }
}

} // verus!

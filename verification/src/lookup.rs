//! Finding the sort key of a base utility class.
use vstd::prelude::*;
use crate::table::{
    key_for, no_signed_prefix, starts_with_dash, tailwind_table, SortKey, SortKeyView, SortTable,
    TableView,
};
use crate::text::chars_of;
use crate::value::{is_numeric_or_keyword_value, numeric_or_keyword};

verus! {

/// The largest `k <= last` such that `s[k]` is a `-` and the table has a
/// class key for `s[..k]`: the first hit when cutting `s` back at dashes
/// from the right.
pub open spec fn last_dash_prefix(t: TableView, s: Seq<char>, last: int) -> Option<int>
    decreases last + 1,
{
    if last < 0 || last >= s.len() {
        None
    } else if s[last] == '-' && key_for(t.classes, s.take(last)) is Some {
        Some(last)
    } else {
        last_dash_prefix(t, s, last - 1)
    }
}

/// `base` without one leading `-` (the sign of a negative value such as `-m-4`).
pub open spec fn without_sign(base: Seq<char>) -> Seq<char> {
    if base.len() > 0 && base[0] == '-' {
        base.drop_first()
    } else {
        base
    }
}

/// The sort key of a base utility class (one without variants):
/// - the key of the whole class, if the table has one;
/// - else, for a class with a leading `-`, the key of the rest;
/// - else the key of the longest prefix ending just before a `-` (of the class
///   without its sign) that the table has; where that prefix is ambiguous
///   and the value after it is a colour, its colour key instead;
/// - else none: the class is unknown.
pub open spec fn sort_key_of(t: TableView, base: Seq<char>) -> Option<SortKeyView> {
    let eff = without_sign(base);
    if key_for(t.classes, base) is Some {
        key_for(t.classes, base)
    } else if eff != base && key_for(t.classes, eff) is Some {
        key_for(t.classes, eff)
    } else {
        match last_dash_prefix(t, eff, eff.len() - 1) {
            None => None,
            Some(k) => {
                let prefix = eff.take(k);
                if key_for(t.colors, prefix) is Some && !numeric_or_keyword(
                    prefix,
                    eff.skip(k + 1),
                ) {
                    key_for(t.colors, prefix)
                } else {
                    key_for(t.classes, prefix)
                }
            },
        }
    }
}

/// The sort key of the base utility `base_class` in `table`.
#[verifier::loop_isolation(false)]
pub fn find_sort_key<'t>(table: &'t SortTable, base_class: &str) -> (r: Option<&'t SortKey>)
    requires
        table.wf(),
    ensures
        sort_key_of(table@, base_class@) == match r {
            Some(k) => Some(k@),
            None => None::<SortKeyView>,
        },
{
    let chars = chars_of(base_class);
    let base = &chars;
    let n = base.len();
    let ghost t = table@;
    assert(base@.subrange(0, n as int) =~= base@);
    if let Some(key) = table.class_key(base, 0, n) {
        return Some(key);
    }
    let off: usize = if n > 0 && base[0] == '-' {
        1
    } else {
        0
    };
    let ghost eff = without_sign(base@);
    assert(eff =~= base@.subrange(off as int, n as int));
    if off == 1 {
        assert(eff.len() != base@.len());
        if let Some(key) = table.class_key(base, 1, n) {
            return Some(key);
        }
    }
    // Cut back at dashes from the right.
    let mut j: usize = n;
    while j > off
        invariant
            off <= j <= n == base@.len(),
            eff == base@.subrange(off as int, n as int),
            table.wf(),
            t == table@,
            last_dash_prefix(t, eff, eff.len() - 1) == last_dash_prefix(t, eff, j - off - 1),
        decreases j,
    {
        let k = j - 1;
        assert(eff[k - off] == base@[k as int]);
        assert(eff.take(k - off) =~= base@.subrange(off as int, k as int));
        if base[k] == '-' {
            if let Some(key) = table.class_key(base, off, k) {
                proof {
                    assert(last_dash_prefix(t, eff, k - off) == Some(k - off));
                }
                if let Some(color) = table.color_key(base, off, k) {
                    let prefix = base_class.substring_char(off, k);
                    let suffix = base_class.substring_char(k + 1, n);
                    assert(suffix@ =~= eff.skip(k - off + 1));
                    if !is_numeric_or_keyword_value(prefix, suffix) {
                        return Some(color);
                    }
                }
                return Some(key);
            }
        }
        j = k;
    }
    None
}

proof fn lemma_key_for_absent(entries: Seq<(Seq<char>, SortKeyView)>, name: Seq<char>)
    requires
        forall|i: int| 0 <= i < entries.len() ==> (#[trigger] entries[i]).0 != name,
    ensures
        key_for(entries, name) is None,
    decreases entries.len(),
{
    if entries.len() > 0 {
        assert(entries.last() == entries[entries.len() - 1]);
        assert forall|i: int| 0 <= i < entries.drop_last().len() implies (
        #[trigger] entries.drop_last()[i]).0 != name by {
            assert(entries.drop_last()[i] == entries[i]);
        }
        lemma_key_for_absent(entries.drop_last(), name);
    }
}

/// A negative value (`-m-4`) has the key of its positive form (`m-4`), in a
/// table whose class prefixes do not start with `-`.
pub proof fn negative_value_same_key(t: TableView, s: Seq<char>)
    requires
        no_signed_prefix(t),
        !starts_with_dash(s),
    ensures
        sort_key_of(t, seq!['-'] + s) == sort_key_of(t, s),
{
    let neg = seq!['-'] + s;
    assert forall|i: int| 0 <= i < t.classes.len() implies (#[trigger] t.classes[i]).0 != neg by {
        assert(!starts_with_dash(t.classes[i].0));
        assert(neg[0] == '-');
    }
    lemma_key_for_absent(t.classes, neg);
    assert(neg.drop_first() =~= s);
    assert(without_sign(neg) == s);
    assert(without_sign(s) == s);
}

/// An independent copy of a sort key.
pub fn copy_key(k: &SortKey) -> (r: SortKey)
    ensures
        r@ == k@,
{
    let mut order: Vec<usize> = Vec::new();
    let mut i: usize = 0;
    while i < k.order.len()
        invariant
            i <= k.order@.len(),
            order@ == k.order@.take(i as int),
        decreases k.order@.len() - i,
    {
        order.push(k.order[i]);
        i = i + 1;
        assert(order@ =~= k.order@.take(i as int));
    }
    assert(k.order@.take(i as int) =~= k.order@);
    SortKey { order, count: k.count }
}

/// Look up the sort key of a base utility class (one without variants) in
/// the Tailwind table: the whole class, then the class without a leading
/// `-`, then its prefixes cut back at `-` boundaries, with colour values of
/// ambiguous prefixes (`border`, `ring`, `shadow`, ...) taking the colour key.
/// A negative value (`-m-4`) has the key of its positive form (`m-4`).
pub fn lookup_sort_key(base_class: &str) -> (r: Option<SortKey>)
    ensures
        sort_key_of(tailwind_table(), base_class@) == match r {
            Some(k) => Some(k@),
            None => None::<SortKeyView>,
        },
        !starts_with_dash(base_class@) ==> sort_key_of(tailwind_table(), seq!['-'] + base_class@)
            == match r {
            Some(k) => Some(k@),
            None => None::<SortKeyView>,
        },
{
    let table = SortTable::tailwind();
    proof {
        if !starts_with_dash(base_class@) {
            negative_value_same_key(tailwind_table(), base_class@);
        }
    }
    match find_sort_key(&table, base_class) {
        Some(k) => Some(copy_key(k)),
        None => None,
    }
}

proof fn lemma_last_dash_at(t: TableView, s: Seq<char>, last: int, k: int)
    requires
        0 <= k <= last < s.len(),
        s[k] == '-',
        key_for(t.classes, s.take(k)) is Some,
        forall|j: int| k < j <= last ==> #[trigger] s[j] != '-',
    ensures
        last_dash_prefix(t, s, last) == Some(k),
    decreases last,
{
    if last > k {
        lemma_last_dash_at(t, s, last - 1, k);
    }
}

/// A class made of a listed prefix `p`, a `-` and a value `v` without
/// dashes, that the table does not list whole, takes the prefix's key; for
/// an ambiguous prefix (one with a colour key too) and a colour value, the
/// prefix's colour key instead.
pub proof fn ambiguous_prefix_value(t: TableView, p: Seq<char>, v: Seq<char>)
    requires
        p.len() > 0,
        p[0] != '-',
        key_for(t.classes, p) is Some,
        forall|i: int| 0 <= i < v.len() ==> #[trigger] v[i] != '-',
        key_for(t.classes, p + seq!['-'] + v) is None,
    ensures
        sort_key_of(t, p + seq!['-'] + v) == if key_for(t.colors, p) is Some && !numeric_or_keyword(
            p,
            v,
        ) {
            key_for(t.colors, p)
        } else {
            key_for(t.classes, p)
        },
{
    let s = p + seq!['-'] + v;
    let k = p.len() as int;
    assert(s[0] == p[0]);
    assert(without_sign(s) == s);
    assert(s[k] == '-');
    assert(s.take(k) =~= p);
    assert forall|j: int| k < j <= s.len() - 1 implies #[trigger] s[j] != '-' by {
        assert(s[j] == v[j - k - 1]);
    }
    lemma_last_dash_at(t, s, s.len() - 1, k);
    assert(s.skip(k + 1) =~= v);
}

/// A class that the table lists whole takes its own key.
pub proof fn listed_class_takes_its_key(t: TableView, s: Seq<char>)
    requires
        key_for(t.classes, s) is Some,
    ensures
        sort_key_of(t, s) == key_for(t.classes, s),
{
}

} // verus!

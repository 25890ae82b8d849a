//! The prefix table: for each class prefix, the sort key of the CSS
//! properties that it generates.
use vstd::prelude::*;
use crate::data::{class_entries_start_plain, CLASS_PROPERTIES, COLOR_PROPERTIES, PROPERTY_ORDER};
use crate::lookup::copy_key;
use crate::text::{
    chars_of, copy_range, equals, equals_range, lemma_first_piece_start, lemma_runs_start_plain,
    plain_start, split_range, split_runs, Separator,
};

verus! {

/// The sort key of a utility: the sorted, deduplicated positions of its CSS
/// properties in the property order, and its number of declarations.
#[derive(Clone, Debug)]
pub struct SortKey {
    /// Positions in the property order, strictly ascending.
    pub order: Vec<usize>,
    /// Number of CSS declarations (properties listed, found or not).
    pub count: usize,
}

pub struct SortKeyView {
    pub order: Seq<usize>,
    pub count: nat,
}

impl View for SortKey {
    type V = SortKeyView;

    open spec fn view(&self) -> SortKeyView {
        SortKeyView { order: self.order@, count: self.count as nat }
    }
}

pub open spec fn strictly_ascending(s: Seq<usize>) -> bool {
    forall|i: int, j: int| 0 <= i < j < s.len() ==> s[i] < s[j]
}

/// Position of `name` in `names`; where it occurs more than once, the last
/// (as a map built by inserting the names in order keeps).
pub open spec fn position_of(names: Seq<Seq<char>>, name: Seq<char>) -> Option<nat>
    decreases names.len(),
{
    if names.len() == 0 {
        None
    } else if names.last() == name {
        Some((names.len() - 1) as nat)
    } else {
        position_of(names.drop_last(), name)
    }
}

/// `k` is the sort key of a utility that generates `props`: its order holds,
/// ascending and once each, the positions of those of `props` that `names`
/// lists, and its count is the number of `props`.
pub open spec fn is_key_of(names: Seq<Seq<char>>, props: Seq<Seq<char>>, k: SortKeyView) -> bool {
    &&& strictly_ascending(k.order)
    &&& forall|x: usize|
        k.order.contains(x) <==> exists|j: int|
            0 <= j < props.len() && position_of(names, #[trigger] props[j]) == Some(x as nat)
    &&& k.count == props.len()
}

/// The property names of a property-order text.
pub open spec fn names_of(text: Seq<char>) -> Seq<Seq<char>> {
    split_runs(text, Separator::AsciiWhitespace)
}

/// The entries of a table text, one per line (empty lines hold none).
pub open spec fn entries_of(text: Seq<char>) -> Seq<Seq<char>> {
    split_runs(text, Separator::LineBreak)
}

/// The prefix of an entry `prefix:property,...`.
pub open spec fn entry_prefix(entry: Seq<char>) -> Seq<char> {
    let fields = split_runs(entry, Separator::FieldMark);
    if fields.len() > 0 {
        fields[0]
    } else {
        Seq::empty()
    }
}

/// The properties of an entry `prefix:property,...`.
pub open spec fn entry_props(entry: Seq<char>) -> Seq<Seq<char>> {
    let fields = split_runs(entry, Separator::FieldMark);
    if fields.len() > 0 {
        fields.drop_first()
    } else {
        Seq::empty()
    }
}

/// `view` holds, in order, one (prefix, key) pair per entry of `text`, the
/// keys taken against the property names `names`.
pub open spec fn built_from(
    view: Seq<(Seq<char>, SortKeyView)>,
    names: Seq<Seq<char>>,
    text: Seq<char>,
) -> bool {
    let entries = entries_of(text);
    &&& view.len() == entries.len()
    &&& forall|i: int|
        0 <= i < view.len() ==> (#[trigger] view[i]).0 == entry_prefix(entries[i]) && is_key_of(
            names,
            entry_props(entries[i]),
            view[i].1,
        )
}

/// The key of `prefix` in a list of (prefix, key) pairs; where a prefix
/// occurs more than once, the last.
pub open spec fn key_for(entries: Seq<(Seq<char>, SortKeyView)>, prefix: Seq<char>) -> Option<
    SortKeyView,
>
    decreases entries.len(),
{
    if entries.len() == 0 {
        None
    } else if entries.last().0 == prefix {
        Some(entries.last().1)
    } else {
        key_for(entries.drop_last(), prefix)
    }
}

pub struct TableView {
    /// (prefix, key) for each class prefix.
    pub classes: Seq<(Seq<char>, SortKeyView)>,
    /// (prefix, key) for each ambiguous prefix whose value is a colour.
    pub colors: Seq<(Seq<char>, SortKeyView)>,
}

/// The prefix table built from the Tailwind data.
#[derive(Debug)]
pub struct SortTable {
    prefixes: Vec<Vec<char>>,
    keys: Vec<SortKey>,
    color_prefixes: Vec<Vec<char>>,
    color_keys: Vec<SortKey>,
}

pub open spec fn pairs(prefixes: Seq<Vec<char>>, keys: Seq<SortKey>) -> Seq<
    (Seq<char>, SortKeyView),
> {
    Seq::new(prefixes.len(), |i: int| (prefixes[i]@, keys[i]@))
}

impl View for SortTable {
    type V = TableView;

    closed spec fn view(&self) -> TableView {
        TableView {
            classes: pairs(self.prefixes@, self.keys@),
            colors: pairs(self.color_prefixes@, self.color_keys@),
        }
    }
}

pub open spec fn starts_with_dash(s: Seq<char>) -> bool {
    s.len() > 0 && s[0] == '-'
}

/// No class prefix of the table starts with `-`.
pub open spec fn no_signed_prefix(t: TableView) -> bool {
    forall|i: int| 0 <= i < t.classes.len() ==> !starts_with_dash(#[trigger] t.classes[i].0)
}

/// The table that the Tailwind data describes.
pub open spec fn is_tailwind_table(t: TableView) -> bool {
    let names = names_of(PROPERTY_ORDER@);
    &&& built_from(t.classes, names, CLASS_PROPERTIES@)
    &&& built_from(t.colors, names, COLOR_PROPERTIES@)
}

/// Position of `name` in `names`, the last where it occurs more than once.
fn position_in(names: &Vec<Vec<char>>, name: &Vec<char>) -> (r: Option<usize>)
    ensures
        r matches Some(i) ==> i < names@.len(),
        position_of(names@.map_values(|v: Vec<char>| v@), name@) == match r {
            Some(i) => Some(i as nat),
            None => None::<nat>,
        },
{
    let ghost deep = names@.map_values(|v: Vec<char>| v@);
    let mut i = names.len();
    assert(deep.take(i as int) =~= deep);
    while i > 0
        invariant
            i <= names@.len(),
            deep == names@.map_values(|v: Vec<char>| v@),
            position_of(deep, name@) == position_of(deep.take(i as int), name@),
        decreases i,
    {
        let ghost pre = deep.take(i as int);
        assert(pre.drop_last() =~= deep.take(i - 1));
        if equals(&names[i - 1], name) {
            return Some(i - 1);
        }
        i = i - 1;
    }
    None
}

/// Insert `x` into the strictly ascending `order`, unless it is there already.
fn insert_ascending(order: &mut Vec<usize>, x: usize)
    requires
        strictly_ascending(old(order)@),
    ensures
        strictly_ascending(final(order)@),
        forall|y: usize| #[trigger] final(order)@.contains(y) <==> (old(order)@.contains(y) || y == x),
{
    let n = order.len();
    let mut i: usize = 0;
    while i < n && order[i] < x
        invariant
            n == order@.len(),
            i <= n,
            forall|j: int| 0 <= j < i ==> order@[j] < x,
        decreases n - i,
    {
        i = i + 1;
    }
    if i < n && order[i] == x {
        return;
    }
    let ghost before = order@;
    assert(before == old(order)@);
    order.insert(i, x);
    proof {
        assert(order@ =~= before.take(i as int).push(x) + before.skip(i as int));
        assert forall|y: usize| #[trigger] order@.contains(y) <==> (before.contains(y) || y == x) by {
            if order@.contains(y) {
                let k = choose|k: int| 0 <= k < order@.len() && order@[k] == y;
                if k < i {
                    assert(before[k] == y);
                } else if k > i {
                    assert(before[k - 1] == y);
                }
            }
            if before.contains(y) {
                let k = choose|k: int| 0 <= k < before.len() && before[k] == y;
                if k < i {
                    assert(order@[k] == y);
                } else {
                    assert(order@[k + 1] == y);
                }
            }
            if y == x {
                assert(order@[i as int] == x);
            }
        }
    }
}

/// The sort key of the entry `s[lo..hi]` (`prefix:property,...`) against the property names.
fn key_of_entry(names: &Vec<Vec<char>>, s: &Vec<char>, lo: usize, hi: usize) -> (r: (
    Vec<char>,
    SortKey,
))
    requires
        lo <= hi <= s@.len(),
    ensures
        r.0@ == entry_prefix(s@.subrange(lo as int, hi as int)),
        is_key_of(
            names@.map_values(|v: Vec<char>| v@),
            entry_props(s@.subrange(lo as int, hi as int)),
            r.1@,
        ),
{
    let ghost deep = names@.map_values(|v: Vec<char>| v@);
    let ghost entry = s@.subrange(lo as int, hi as int);
    let ghost fields = split_runs(entry, Separator::FieldMark);
    let ranges = split_range(s, lo, hi, Separator::FieldMark);
    if ranges.len() == 0 {
        let order: Vec<usize> = Vec::new();
        proof {
            assert(entry_props(entry) =~= Seq::<Seq<char>>::empty());
            assert(order@ =~= Seq::<usize>::empty());
        }
        return (Vec::new(), SortKey { order, count: 0 });
    }
    let prefix = copy_range(s, ranges[0].0, ranges[0].1);
    let mut order: Vec<usize> = Vec::new();
    let ghost props = fields.drop_first();
    let mut k: usize = 1;
    while k < ranges.len()
        invariant
            1 <= k <= ranges@.len() == fields.len(),
            lo <= hi <= s@.len(),
            deep == names@.map_values(|v: Vec<char>| v@),
            props == fields.drop_first(),
            forall|m: int|
                0 <= m < ranges@.len() ==> lo <= (#[trigger] ranges@[m]).0 < ranges@[m].1 <= hi
                    && s@.subrange(ranges@[m].0 as int, ranges@[m].1 as int) == fields[m],
            strictly_ascending(order@),
            forall|x: usize|
                order@.contains(x) <==> exists|j: int|
                    0 <= j < k - 1 && position_of(deep, #[trigger] props[j]) == Some(x as nat),
        decreases ranges@.len() - k,
    {
        let r = ranges[k];
        let prop = copy_range(s, r.0, r.1);
        assert(prop@ == props[k - 1]);
        let ghost before = order@;
        match position_in(names, &prop) {
            Some(p) => {
                insert_ascending(&mut order, p);
            },
            None => {},
        }
        proof {
            assert forall|x: usize| order@.contains(x) <==> exists|j: int|
                0 <= j < k && position_of(deep, #[trigger] props[j]) == Some(x as nat) by {
                if exists|j: int| 0 <= j < k && position_of(deep, #[trigger] props[j]) == Some(
                    x as nat,
                ) {
                    let j = choose|j: int|
                        0 <= j < k && position_of(deep, #[trigger] props[j]) == Some(x as nat);
                    if j < k - 1 {
                        assert(before.contains(x));
                    }
                }
            }
        }
        k = k + 1;
    }
    let count = ranges.len() - 1;
    (prefix, SortKey { order, count })
}

/// The (prefix, key) pairs of the entries of `text`.
fn build_pairs(names: &Vec<Vec<char>>, text: &str) -> (r: (Vec<Vec<char>>, Vec<SortKey>))
    ensures
        r.0@.len() == r.1@.len(),
        built_from(pairs(r.0@, r.1@), names@.map_values(|v: Vec<char>| v@), text@),
{
    let s = chars_of(text);
    let ghost entries = entries_of(text@);
    assert(s@.subrange(0, s@.len() as int) =~= s@);
    let ranges = split_range(&s, 0, s.len(), Separator::LineBreak);
    let mut prefixes: Vec<Vec<char>> = Vec::new();
    let mut keys: Vec<SortKey> = Vec::new();
    let mut i: usize = 0;
    while i < ranges.len()
        invariant
            s@ == text@,
            ranges@.len() == entries.len(),
            forall|m: int|
                0 <= m < ranges@.len() ==> 0 <= (#[trigger] ranges@[m]).0 < ranges@[m].1
                    <= s@.len() && s@.subrange(ranges@[m].0 as int, ranges@[m].1 as int)
                    == entries[m],
            i <= ranges@.len(),
            prefixes@.len() == i,
            keys@.len() == i,
            forall|m: int|
                0 <= m < i ==> (#[trigger] prefixes@[m])@ == entry_prefix(entries[m])
                    && is_key_of(
                    names@.map_values(|v: Vec<char>| v@),
                    entry_props(entries[m]),
                    keys@[m]@,
                ),
        decreases ranges@.len() - i,
    {
        let r = ranges[i];
        let (prefix, key) = key_of_entry(names, &s, r.0, r.1);
        let ghost old_prefixes = prefixes@;
        let ghost old_keys = keys@;
        prefixes.push(prefix);
        keys.push(key);
        proof {
            assert forall|m: int| 0 <= m < i + 1 implies (#[trigger] prefixes@[m])@ == entry_prefix(
                entries[m],
            ) && is_key_of(
                names@.map_values(|v: Vec<char>| v@),
                entry_props(entries[m]),
                keys@[m]@,
            ) by {
                if m < i {
                    assert(prefixes@[m] == old_prefixes[m]);
                    assert(keys@[m] == old_keys[m]);
                }
            }
        }
        i = i + 1;
    }
    proof {
        let view = pairs(prefixes@, keys@);
        assert forall|m: int| 0 <= m < view.len() implies (#[trigger] view[m]).0 == entry_prefix(
            entries[m],
        ) && is_key_of(names@.map_values(|v: Vec<char>| v@), entry_props(entries[m]), view[m].1)
            by {
            assert(prefixes@[m]@ == entry_prefix(entries[m]));
        }
    }
    (prefixes, keys)
}

/// The property names of the property order, in order.
fn build_names() -> (r: Vec<Vec<char>>)
    ensures
        r@.map_values(|v: Vec<char>| v@) == names_of(PROPERTY_ORDER@),
{
    let s = chars_of(PROPERTY_ORDER);
    assert(s@.subrange(0, s@.len() as int) =~= s@);
    let ranges = split_range(&s, 0, s.len(), Separator::AsciiWhitespace);
    let ghost names = names_of(PROPERTY_ORDER@);
    let mut out: Vec<Vec<char>> = Vec::new();
    let mut i: usize = 0;
    while i < ranges.len()
        invariant
            s@ == PROPERTY_ORDER@,
            ranges@.len() == names.len(),
            forall|m: int|
                0 <= m < ranges@.len() ==> 0 <= (#[trigger] ranges@[m]).0 < ranges@[m].1
                    <= s@.len() && s@.subrange(ranges@[m].0 as int, ranges@[m].1 as int)
                    == names[m],
            i <= ranges@.len(),
            out@.len() == i,
            forall|m: int| 0 <= m < i ==> (#[trigger] out@[m])@ == names[m],
        decreases ranges@.len() - i,
    {
        let r = ranges[i];
        out.push(copy_range(&s, r.0, r.1));
        i = i + 1;
    }
    assert(out@.map_values(|v: Vec<char>| v@) =~= names);
    out
}

/// Index of the last pair whose prefix is `s[lo..hi]`.
fn find_prefix(prefixes: &Vec<Vec<char>>, s: &Vec<char>, lo: usize, hi: usize) -> (r: Option<
    usize,
>)
    requires
        lo <= hi <= s@.len(),
    ensures
        match r {
            Some(i) => i < prefixes@.len() && prefixes@[i as int]@ == s@.subrange(
                lo as int,
                hi as int,
            ) && forall|j: int|
                i < j < prefixes@.len() ==> (#[trigger] prefixes@[j])@ != s@.subrange(
                    lo as int,
                    hi as int,
                ),
            None => forall|j: int|
                0 <= j < prefixes@.len() ==> (#[trigger] prefixes@[j])@ != s@.subrange(
                    lo as int,
                    hi as int,
                ),
        },
{
    let mut i = prefixes.len();
    while i > 0
        invariant
            i <= prefixes@.len(),
            lo <= hi <= s@.len(),
            forall|j: int|
                i <= j < prefixes@.len() ==> (#[trigger] prefixes@[j])@ != s@.subrange(
                    lo as int,
                    hi as int,
                ),
        decreases i,
    {
        if equals_range(&prefixes[i - 1], s, lo, hi) {
            return Some(i - 1);
        }
        i = i - 1;
    }
    None
}

proof fn lemma_key_for_last(entries: Seq<(Seq<char>, SortKeyView)>, prefix: Seq<char>, i: int)
    requires
        0 <= i < entries.len(),
        entries[i].0 == prefix,
        forall|j: int| i < j < entries.len() ==> (#[trigger] entries[j]).0 != prefix,
    ensures
        key_for(entries, prefix) == Some(entries[i].1),
    decreases entries.len(),
{
    if i < entries.len() - 1 {
        assert(entries.last() == entries[entries.len() - 1]);
        assert forall|j: int| i < j < entries.drop_last().len() implies (
        #[trigger] entries.drop_last()[j]).0 != prefix by {
            assert(entries.drop_last()[j] == entries[j]);
        }
        lemma_key_for_last(entries.drop_last(), prefix, i);
    }
}

proof fn lemma_key_for_none(entries: Seq<(Seq<char>, SortKeyView)>, prefix: Seq<char>)
    requires
        forall|j: int| 0 <= j < entries.len() ==> (#[trigger] entries[j]).0 != prefix,
    ensures
        key_for(entries, prefix) == None::<SortKeyView>,
    decreases entries.len(),
{
    if entries.len() > 0 {
        assert(entries.last() == entries[entries.len() - 1]);
        assert forall|j: int| 0 <= j < entries.drop_last().len() implies (
        #[trigger] entries.drop_last()[j]).0 != prefix by {
            assert(entries.drop_last()[j] == entries[j]);
        }
        lemma_key_for_none(entries.drop_last(), prefix);
    }
}

/// Two strictly ascending sequences with the same elements are equal.
pub proof fn lemma_ascending_unique(a: Seq<usize>, b: Seq<usize>)
    requires
        strictly_ascending(a),
        strictly_ascending(b),
        forall|x: usize| a.contains(x) <==> b.contains(x),
    ensures
        a == b,
    decreases a.len() + b.len(),
{
    if a.len() == 0 || b.len() == 0 {
        if a.len() > 0 {
            assert(a.contains(a[0]));
        }
        if b.len() > 0 {
            assert(b.contains(b[0]));
        }
        assert(a =~= b);
    } else {
        assert(a.contains(a[0]));
        assert(b.contains(b[0]));
        let ia = choose|i: int| 0 <= i < a.len() && a[i] == b[0];
        let ib = choose|i: int| 0 <= i < b.len() && b[i] == a[0];
        assert(a[0] == b[0]) by {
            if a[0] < b[0] {
                assert(b[ib] >= b[0]);
            } else if a[0] > b[0] {
                assert(a[ia] >= a[0]);
            }
        }
        let a1 = a.drop_first();
        let b1 = b.drop_first();
        assert forall|x: usize| a1.contains(x) <==> b1.contains(x) by {
            if a1.contains(x) {
                let i = choose|i: int| 0 <= i < a1.len() && a1[i] == x;
                assert(a[i + 1] == x);
                assert(b.contains(x));
                let j = choose|j: int| 0 <= j < b.len() && b[j] == x;
                assert(j != 0);
                assert(b1[j - 1] == x);
            }
            if b1.contains(x) {
                let i = choose|i: int| 0 <= i < b1.len() && b1[i] == x;
                assert(b[i + 1] == x);
                assert(a.contains(x));
                let j = choose|j: int| 0 <= j < a.len() && a[j] == x;
                assert(j != 0);
                assert(a1[j - 1] == x);
            }
        }
        lemma_ascending_unique(a1, b1);
        assert(a =~= seq![a[0]] + a1);
        assert(b =~= seq![b[0]] + b1);
    }
}

proof fn lemma_built_from_unique(
    v1: Seq<(Seq<char>, SortKeyView)>,
    v2: Seq<(Seq<char>, SortKeyView)>,
    names: Seq<Seq<char>>,
    text: Seq<char>,
)
    requires
        built_from(v1, names, text),
        built_from(v2, names, text),
    ensures
        v1 == v2,
{
    let entries = entries_of(text);
    assert forall|i: int| 0 <= i < v1.len() implies v1[i] == v2[i] by {
        assert(v1[i].0 == entry_prefix(entries[i]));
        assert(v2[i].0 == entry_prefix(entries[i]));
        let k1 = v1[i].1;
        let k2 = v2[i].1;
        assert(is_key_of(names, entry_props(entries[i]), k1));
        assert(is_key_of(names, entry_props(entries[i]), k2));
        lemma_ascending_unique(k1.order, k2.order);
    }
    assert(v1 =~= v2);
}

/// The Tailwind data describes exactly one table.
pub proof fn lemma_tailwind_table_unique(t1: TableView, t2: TableView)
    requires
        is_tailwind_table(t1),
        is_tailwind_table(t2),
    ensures
        t1 == t2,
{
    let names = names_of(PROPERTY_ORDER@);
    lemma_built_from_unique(t1.classes, t2.classes, names, CLASS_PROPERTIES@);
    lemma_built_from_unique(t1.colors, t2.colors, names, COLOR_PROPERTIES@);
}

/// The prefix of an entry that begins with a plain character begins with
/// that character.
proof fn lemma_entry_prefix_start(e: Seq<char>)
    requires
        e.len() > 0,
        plain_start(e[0]),
    ensures
        entry_prefix(e).len() > 0,
        entry_prefix(e)[0] == e[0],
{
    lemma_first_piece_start(e, Separator::FieldMark);
}

/// No class prefix of the Tailwind table starts with `-`.
pub proof fn tailwind_prefixes_unsigned(t: TableView)
    requires
        is_tailwind_table(t),
    ensures
        no_signed_prefix(t),
{
    class_entries_start_plain();
    lemma_runs_start_plain(CLASS_PROPERTIES@);
    let entries = entries_of(CLASS_PROPERTIES@);
    assert forall|i: int| 0 <= i < t.classes.len() implies !starts_with_dash(
        #[trigger] t.classes[i].0,
    ) by {
        assert(t.classes[i].0 == entry_prefix(entries[i]));
        lemma_entry_prefix_start(entries[i]);
    }
}

/// The table that the Tailwind data describes.
pub open spec fn tailwind_table() -> TableView {
    choose|t: TableView| is_tailwind_table(t)
}

impl SortTable {
    pub closed spec fn wf(&self) -> bool {
        &&& self.prefixes@.len() == self.keys@.len()
        &&& self.color_prefixes@.len() == self.color_keys@.len()
    }

    /// Build the table from the Tailwind data.
    pub fn tailwind() -> (t: SortTable)
        ensures
            t.wf(),
            is_tailwind_table(t@),
            t@ == tailwind_table(),
            no_signed_prefix(t@),
    {
        let names = build_names();
        let (prefixes, keys) = build_pairs(&names, CLASS_PROPERTIES);
        let (color_prefixes, color_keys) = build_pairs(&names, COLOR_PROPERTIES);
        let t = SortTable { prefixes, keys, color_prefixes, color_keys };
        proof {
            assert(is_tailwind_table(t@));
            lemma_tailwind_table_unique(t@, tailwind_table());
            tailwind_prefixes_unsigned(t@);
        }
        t
    }

    /// The key of the class prefix `s[lo..hi]`, if the table has one.
    pub fn class_key(&self, s: &Vec<char>, lo: usize, hi: usize) -> (r: Option<&SortKey>)
        requires
            self.wf(),
            lo <= hi <= s@.len(),
        ensures
            key_for(self@.classes, s@.subrange(lo as int, hi as int)) == match r {
                Some(k) => Some(k@),
                None => None::<SortKeyView>,
            },
    {
        match find_prefix(&self.prefixes, s, lo, hi) {
            Some(i) => {
                proof {
                    let v = self@.classes;
                    assert forall|j: int| i < j < v.len() implies (#[trigger] v[j]).0
                        != s@.subrange(lo as int, hi as int) by {
                        assert(self.prefixes@[j]@ != s@.subrange(lo as int, hi as int));
                    }
                    lemma_key_for_last(v, s@.subrange(lo as int, hi as int), i as int);
                }
                Some(&self.keys[i])
            },
            None => {
                proof {
                    let v = self@.classes;
                    assert forall|j: int| 0 <= j < v.len() implies (#[trigger] v[j]).0
                        != s@.subrange(lo as int, hi as int) by {
                        assert(self.prefixes@[j]@ != s@.subrange(lo as int, hi as int));
                    }
                    lemma_key_for_none(v, s@.subrange(lo as int, hi as int));
                }
                None
            },
        }
    }

    /// The colour key of the ambiguous prefix `s[lo..hi]`, if it is one.
    pub fn color_key(&self, s: &Vec<char>, lo: usize, hi: usize) -> (r: Option<&SortKey>)
        requires
            self.wf(),
            lo <= hi <= s@.len(),
        ensures
            key_for(self@.colors, s@.subrange(lo as int, hi as int)) == match r {
                Some(k) => Some(k@),
                None => None::<SortKeyView>,
            },
    {
        match find_prefix(&self.color_prefixes, s, lo, hi) {
            Some(i) => {
                proof {
                    let v = self@.colors;
                    assert forall|j: int| i < j < v.len() implies (#[trigger] v[j]).0
                        != s@.subrange(lo as int, hi as int) by {
                        assert(self.color_prefixes@[j]@ != s@.subrange(lo as int, hi as int));
                    }
                    lemma_key_for_last(v, s@.subrange(lo as int, hi as int), i as int);
                }
                Some(&self.color_keys[i])
            },
            None => {
                proof {
                    let v = self@.colors;
                    assert forall|j: int| 0 <= j < v.len() implies (#[trigger] v[j]).0
                        != s@.subrange(lo as int, hi as int) by {
                        assert(self.color_prefixes@[j]@ != s@.subrange(lo as int, hi as int));
                    }
                    lemma_key_for_none(v, s@.subrange(lo as int, hi as int));
                }
                None
            },
        }
    }
}

/// Independent copies of texts.
fn copy_texts(v: &Vec<Vec<char>>) -> (r: Vec<Vec<char>>)
    ensures
        r@.len() == v@.len(),
        forall|i: int| 0 <= i < v@.len() ==> (#[trigger] r@[i])@ == v@[i]@,
{
    let mut r: Vec<Vec<char>> = Vec::new();
    let mut i: usize = 0;
    while i < v.len()
        invariant
            i <= v@.len(),
            r@.len() == i,
            forall|j: int| 0 <= j < i ==> (#[trigger] r@[j])@ == v@[j]@,
        decreases v@.len() - i,
    {
        let text = copy_range(&v[i], 0, v[i].len());
        assert(v@[i as int]@.subrange(0, v@[i as int]@.len() as int) =~= v@[i as int]@);
        r.push(text);
        i = i + 1;
    }
    r
}

/// Independent copies of sort keys.
fn copy_keys(v: &Vec<SortKey>) -> (r: Vec<SortKey>)
    ensures
        r@.len() == v@.len(),
        forall|i: int| 0 <= i < v@.len() ==> (#[trigger] r@[i])@ == v@[i]@,
{
    let mut r: Vec<SortKey> = Vec::new();
    let mut i: usize = 0;
    while i < v.len()
        invariant
            i <= v@.len(),
            r@.len() == i,
            forall|j: int| 0 <= j < i ==> (#[trigger] r@[j])@ == v@[j]@,
        decreases v@.len() - i,
    {
        r.push(copy_key(&v[i]));
        i = i + 1;
    }
    r
}

impl Clone for SortTable {
    /// An independent copy of the table.
    fn clone(&self) -> (r: SortTable)
        ensures
            self.wf() ==> r@ == self@,
            r.wf() == self.wf(),
    {
        let r = SortTable {
            prefixes: copy_texts(&self.prefixes),
            keys: copy_keys(&self.keys),
            color_prefixes: copy_texts(&self.color_prefixes),
            color_keys: copy_keys(&self.color_keys),
        };
        assert forall|i: int| self.wf() && 0 <= i < self@.classes.len() implies r@.classes[i]
            == self@.classes[i] by {
            assert(r.prefixes@[i]@ == self.prefixes@[i]@);
            assert(r.keys@[i]@ == self.keys@[i]@);
        }
        assert forall|i: int| self.wf() && 0 <= i < self@.colors.len() implies r@.colors[i]
            == self@.colors[i] by {
            assert(r.color_prefixes@[i]@ == self.color_prefixes@[i]@);
            assert(r.color_keys@[i]@ == self.color_keys@[i]@);
        }
        proof {
            if self.wf() {
                assert(r@.classes =~= self@.classes);
                assert(r@.colors =~= self@.colors);
            }
        }
        r
    }
}

} // verus!

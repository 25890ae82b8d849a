//! The public sorter: class strings in, sorted class strings out.
use vstd::prelude::*;
use crate::lookup::{find_sort_key, sort_key_of};
use crate::order::{ClassKeyView, ClassSortKey};
use crate::sort::{arrangement_of, insertion_order, is_sorted_arrangement, sort_class_keys, views};
use crate::table::{tailwind_table, SortTable, TableView};
use crate::text::{
    ascii_ws, chars_of, is_ascii_ws, split_range, split_runs, str_equal, trim, trim_bounds,
    Separator,
};
use crate::variants::{base_of, strip_variants, variant_count};

verus! {

/// Options of a sorter.
#[derive(Debug, Clone)]
pub struct SortOptions {
    /// Keep repeated classes (by default only the first of equal classes stays).
    pub preserve_duplicates: bool,
    /// Keep one space for leading and one for trailing ASCII whitespace.
    pub preserve_whitespace: bool,
}

impl Default for SortOptions {
    fn default() -> (r: SortOptions)
        ensures
            !r.preserve_duplicates,
            !r.preserve_whitespace,
    {
        SortOptions { preserve_duplicates: false, preserve_whitespace: false }
    }
}

/// The classes of a class string: `trim`, then `split_ascii_whitespace`.
pub open spec fn class_list(s: Seq<char>) -> Seq<Seq<char>> {
    split_runs(trim(s), Separator::AsciiWhitespace)
}

/// The classes in order, each kept at its first occurrence only.
pub open spec fn first_occurrences(cs: Seq<Seq<char>>) -> Seq<Seq<char>>
    decreases cs.len(),
{
    if cs.len() == 0 {
        Seq::empty()
    } else {
        let d = first_occurrences(cs.drop_last());
        if d.contains(cs.last()) {
            d
        } else {
            d.push(cs.last())
        }
    }
}

/// The sort key of class `c` at position `i` of a list.
pub open spec fn key_of_class(t: TableView, c: Seq<char>, i: nat) -> ClassKeyView {
    let key = sort_key_of(t, base_of(c));
    ClassKeyView {
        variant_count: variant_count(c),
        order: match key {
            Some(k) => Some(k.order),
            None => None,
        },
        count: match key {
            Some(k) => k.count,
            None => 0,
        },
        base_class: base_of(c),
        original_index: i,
    }
}

/// The sort keys of a class list.
pub open spec fn keys_of_classes(t: TableView, cs: Seq<Seq<char>>) -> Seq<ClassKeyView> {
    Seq::new(cs.len(), |i: int| key_of_class(t, cs[i], i as nat))
}

/// The classes `cs` arranged as `p`.
pub open spec fn arranged(cs: Seq<Seq<char>>, p: Seq<int>) -> Seq<Seq<char>> {
    Seq::new(p.len(), |k: int| cs[p[k]])
}

/// The words joined by single spaces.
pub open spec fn join_words(ws: Seq<Seq<char>>) -> Seq<char>
    decreases ws.len(),
{
    if ws.len() == 0 {
        Seq::empty()
    } else if ws.len() == 1 {
        ws[0]
    } else {
        join_words(ws.drop_last()) + seq![' '] + ws.last()
    }
}

/// The classes that a sort of `s` arranges: those of `s`, without repeats
/// unless the options keep them.
pub open spec fn classes_to_sort(opts: SortOptions, s: Seq<char>) -> Seq<Seq<char>> {
    if opts.preserve_duplicates {
        class_list(s)
    } else {
        first_occurrences(class_list(s))
    }
}

/// `body` with a space in front where `s` starts with ASCII whitespace and
/// one behind where it ends with some, when the options keep whitespace.
pub open spec fn with_whitespace(opts: SortOptions, s: Seq<char>, body: Seq<char>) -> Seq<char> {
    if opts.preserve_whitespace && s.len() > 0 {
        (if is_ascii_ws(s[0]) {
            seq![' ']
        } else {
            Seq::empty()
        }) + body + (if is_ascii_ws(s.last()) {
            seq![' ']
        } else {
            Seq::empty()
        })
    } else {
        body
    }
}

/// `out` is a sort of the class string `s`: the empty string stays empty, a
/// string of whitespace becomes one space, and otherwise `out` is the classes
/// of `s` (first occurrences only, unless duplicates are kept) joined by
/// single spaces in an arrangement sorted by Tailwind's order, with the
/// leading and trailing whitespace kept as one space each when the options say so.
pub open spec fn is_sorted_class_string(opts: SortOptions, s: Seq<char>, out: Seq<char>) -> bool {
    if s.len() == 0 {
        out == s
    } else if trim(s).len() == 0 {
        out == seq![' ']
    } else {
        let cs = classes_to_sort(opts, s);
        exists|p: Seq<int>|
            is_sorted_arrangement(keys_of_classes(tailwind_table(), cs), p) && out
                == with_whitespace(opts, s, join_words(arranged(cs, p)))
    }
}

/// The sort of `s` that this library computes: as `is_sorted_class_string`
/// describes, with the classes arranged as a stable insertion sort places
/// them (the only sorted arrangement: see `laws::sorted_arrangement_unique`).
pub open spec fn insertion_sorted(opts: SortOptions, s: Seq<char>) -> Seq<char> {
    if s.len() == 0 {
        s
    } else if trim(s).len() == 0 {
        seq![' ']
    } else {
        let cs = classes_to_sort(opts, s);
        with_whitespace(
            opts,
            s,
            join_words(arranged(cs, insertion_order(keys_of_classes(tailwind_table(), cs), cs.len()))),
        )
    }
}

pub open spec fn str_views(v: Seq<&str>) -> Seq<Seq<char>> {
    v.map_values(|s: &str| s@)
}

/// Whether `seen` holds a class equal to `c`.
fn contains_class(seen: &Vec<&str>, c: &str) -> (r: bool)
    ensures
        r == str_views(seen@).contains(c@),
{
    let mut i: usize = 0;
    while i < seen.len()
        invariant
            i <= seen@.len(),
            forall|j: int| 0 <= j < i ==> seen@[j]@ != c@,
        decreases seen@.len() - i,
    {
        if str_equal(seen[i], c) {
            assert(str_views(seen@)[i as int] == c@);
            return true;
        }
        i = i + 1;
    }
    proof {
        if str_views(seen@).contains(c@) {
            let j = choose|j: int| 0 <= j < str_views(seen@).len() && str_views(seen@)[j] == c@;
            assert(seen@[j]@ == c@);
        }
    }
    false
}

/// The classes in order, each kept at its first occurrence only.
pub fn remove_duplicates<'a>(classes: Vec<&'a str>) -> (r: Vec<&'a str>)
    ensures
        str_views(r@) == first_occurrences(str_views(classes@)),
{
    let mut seen: Vec<&'a str> = Vec::new();
    let mut i: usize = 0;
    assert(str_views(classes@).take(0) =~= Seq::<Seq<char>>::empty());
    assert(str_views(seen@) =~= Seq::<Seq<char>>::empty());
    while i < classes.len()
        invariant
            i <= classes@.len(),
            str_views(seen@) == first_occurrences(str_views(classes@).take(i as int)),
        decreases classes@.len() - i,
    {
        let c = classes[i];
        let ghost pre = str_views(classes@).take(i + 1);
        assert(pre.drop_last() =~= str_views(classes@).take(i as int));
        assert(pre.last() == c@);
        if !contains_class(&seen, c) {
            seen.push(c);
            assert(str_views(seen@) =~= first_occurrences(str_views(classes@).take(i as int)).push(
                c@,
            ));
        }
        i = i + 1;
    }
    assert(str_views(classes@).take(i as int) =~= str_views(classes@));
    seen
}

/// A Tailwind CSS class sorter using CSS-property-based ordering, as
/// Tailwind CSS v4's compiler orders utilities.
#[derive(Debug, Clone)]
pub struct ClassSorter {
    pub options: SortOptions,
}

/// The table holds the Tailwind data.
pub open spec fn is_tailwind(table: &SortTable) -> bool {
    table.wf() && table@ == tailwind_table()
}

impl ClassSorter {
    pub fn new(options: SortOptions) -> (r: ClassSorter)
        ensures
            r.options == options,
    {
        ClassSorter { options }
    }

    /// The key of each class of `classes`, at its position.
    fn class_keys(table: &SortTable, classes: &Vec<&str>) -> (r: Vec<ClassSortKey>)
        requires
            is_tailwind(table),
        ensures
            views(r@) == keys_of_classes(tailwind_table(), str_views(classes@)),
    {
        let mut entries: Vec<ClassSortKey> = Vec::new();
        let mut i: usize = 0;
        while i < classes.len()
            invariant
                is_tailwind(table),
                i <= classes@.len(),
                entries@.len() == i,
                forall|j: int|
                    0 <= j < i ==> (#[trigger] entries@[j])@ == key_of_class(
                        tailwind_table(),
                        classes@[j]@,
                        j as nat,
                    ),
            decreases classes@.len() - i,
        {
            let (variants, base) = strip_variants(classes[i]);
            let base_chars = chars_of(base);
            let found = find_sort_key(table, base);
            let entry = match found {
                Some(k) => ClassSortKey {
                    variant_count: variants,
                    order: Some(crate::lookup::copy_key(k).order),
                    count: k.count,
                    base_class: base_chars,
                    original_index: i,
                },
                None => ClassSortKey {
                    variant_count: variants,
                    order: None,
                    count: 0,
                    base_class: base_chars,
                    original_index: i,
                },
            };
            entries.push(entry);
            i = i + 1;
        }
        assert(views(entries@) =~= keys_of_classes(tailwind_table(), str_views(classes@)));
        entries
    }

    /// Sort one space-separated class string.
    ///
    /// Known Tailwind utilities are ordered by the CSS properties they
    /// generate; unknown classes go to the end, in their original order.
    pub fn sort_class_string(&self, class_str: String) -> (r: String)
        ensures
            is_sorted_class_string(self.options, class_str@, r@),
            r@ == insertion_sorted(self.options, class_str@),
    {
        let table = SortTable::tailwind();
        self.sort_by_table(&table, class_str)
    }

    /// Sort one class string by `table`, the Tailwind table.
    fn sort_by_table(&self, table: &SortTable, class_str: String) -> (r: String)
        requires
            is_tailwind(table),
        ensures
            is_sorted_class_string(self.options, class_str@, r@),
            r@ == insertion_sorted(self.options, class_str@),
    {
        let chars = chars_of(class_str.as_str());
        let n = chars.len();
        if n == 0 {
            return class_str;
        }
        let (lo, hi) = trim_bounds(&chars);
        if lo == hi {
            let single = String::from_str(" ");
            proof {
                reveal_strlit(" ");
                assert(single@ =~= seq![' ']);
                assert(chars@.subrange(lo as int, hi as int).len() == 0);
            }
            return single;
        }
        let leading = ascii_ws(chars[0]);
        let trailing = ascii_ws(chars[n - 1]);
        let ranges = split_range(&chars, lo, hi, Separator::AsciiWhitespace);
        let text = class_str.as_str();
        let ghost all = class_list(class_str@);
        let mut listed: Vec<&str> = Vec::new();
        let mut i: usize = 0;
        while i < ranges.len()
            invariant
                text@ == class_str@,
                chars@ == class_str@,
                lo <= hi <= chars@.len(),
                chars@.subrange(lo as int, hi as int) == trim(class_str@),
                all == class_list(class_str@),
                ranges@.len() == all.len(),
                forall|m: int|
                    0 <= m < ranges@.len() ==> lo <= (#[trigger] ranges@[m]).0 < ranges@[m].1
                        <= hi && chars@.subrange(ranges@[m].0 as int, ranges@[m].1 as int)
                        == all[m],
                i <= ranges@.len(),
                listed@.len() == i,
                forall|m: int| 0 <= m < i ==> (#[trigger] listed@[m])@ == all[m],
            decreases ranges@.len() - i,
        {
            let r = ranges[i];
            listed.push(text.substring_char(r.0, r.1));
            i = i + 1;
        }
        assert(str_views(listed@) =~= all);
        let classes = if self.options.preserve_duplicates {
            listed
        } else {
            remove_duplicates(listed)
        };
        let ghost cs = classes_to_sort(self.options, class_str@);
        assert(str_views(classes@) == cs);
        let mut entries = Self::class_keys(table, &classes);
        let ghost keys = views(entries@);
        proof {
            assert forall|j: int| 0 <= j < keys.len() implies (#[trigger] keys[j]).original_index
                == j by {
                assert(keys[j] == key_of_class(tailwind_table(), cs[j], j as nat));
            }
        }
        sort_class_keys(&mut entries);
        let ghost p = arrangement_of(entries@);
        let ghost words = arranged(cs, p);
        let mut out = String::new();
        if self.options.preserve_whitespace && leading {
            out.append(" ");
            proof {
                reveal_strlit(" ");
            }
        }
        let ghost front = out@;
        let m = entries.len();
        let mut k: usize = 0;
        assert(words.take(0) =~= Seq::<Seq<char>>::empty());
        while k < m
            invariant
                m == entries@.len() == cs.len() == classes@.len(),
                str_views(classes@) == cs,
                p == arrangement_of(entries@),
                words == arranged(cs, p),
                is_sorted_arrangement(keys, p),
                keys.len() == cs.len(),
                k <= m,
                out@ == front + join_words(words.take(k as int)),
            decreases m - k,
        {
            let idx = entries[k].original_index;
            assert(p[k as int] == idx);
            assert(0 <= idx < m);
            let word = classes[idx];
            assert(word@ == words[k as int]);
            let ghost taken = words.take(k + 1);
            assert(taken.drop_last() =~= words.take(k as int));
            if k > 0 {
                out.append(" ");
                proof {
                    reveal_strlit(" ");
                }
            }
            out.append(word);
            proof {
                if k == 0 {
                    assert(join_words(taken) == taken[0]);
                }
                assert(out@ =~= front + join_words(taken));
            }
            k = k + 1;
        }
        assert(words.take(m as int) =~= words);
        if self.options.preserve_whitespace && trailing {
            out.append(" ");
            proof {
                reveal_strlit(" ");
            }
        }
        proof {
            let body = join_words(words);
            if self.options.preserve_whitespace {
                if leading {
                    assert(front =~= seq![' ']);
                } else {
                    assert(front =~= Seq::<char>::empty());
                }
                assert(out@ =~= with_whitespace(self.options, class_str@, body));
            } else {
                assert(front =~= Seq::<char>::empty());
                assert(out@ =~= with_whitespace(self.options, class_str@, body));
            }
            assert(trim(class_str@).len() != 0);
        }
        out
    }

    /// Sort each of a list of class strings.
    pub fn sort_class_attributes(&self, class_attrs: Vec<String>) -> (r: Vec<String>)
        ensures
            r@.len() == class_attrs@.len(),
            forall|i: int|
                0 <= i < r@.len() ==> is_sorted_class_string(
                    self.options,
                    class_attrs@[i]@,
                    (#[trigger] r@[i])@,
                ) && r@[i]@ == insertion_sorted(self.options, class_attrs@[i]@),
    {
        let table = SortTable::tailwind();
        let mut out: Vec<String> = Vec::new();
        let mut i: usize = 0;
        while i < class_attrs.len()
            invariant
                is_tailwind(&table),
                i <= class_attrs@.len(),
                out@.len() == i,
                forall|j: int|
                    0 <= j < i ==> is_sorted_class_string(
                        self.options,
                        class_attrs@[j]@,
                        (#[trigger] out@[j])@,
                    ) && out@[j]@ == insertion_sorted(self.options, class_attrs@[j]@),
            decreases class_attrs@.len() - i,
        {
            let sorted = self.sort_by_table(&table, class_attrs[i].clone());
            out.push(sorted);
            i = i + 1;
        }
        out
    }
}

} // verus!

//! Sorting a sorted class string again changes nothing.
use vstd::prelude::*;
use crate::order::{comes_before, ClassKeyView};
use crate::sort::{
    insertion_order, insertion_order_is_sorted, insertion_order_of_sorted, is_permutation,
    is_sorted_arrangement, lists,
};
use crate::sorter::{
    arranged, class_list, classes_to_sort, first_occurrences, insertion_sorted,
    join_words, key_of_class, keys_of_classes, with_whitespace, SortOptions,
};
use crate::table::tailwind_table;
use crate::text::{
    flush, is_ascii_ws, is_sep, is_unicode_ws, leading_ws, split_from, split_runs,
    trailing_ws, trim, Separator,
};

verus! {

/// No character of `w` is a separator.
pub open spec fn free_of(w: Seq<char>, sep: Separator) -> bool {
    forall|i: int| 0 <= i < w.len() ==> !is_sep(sep, #[trigger] w[i])
}

/// A class as a split produces it: nonempty, without ASCII whitespace.
pub open spec fn is_class_word(w: Seq<char>) -> bool {
    w.len() > 0 && free_of(w, Separator::AsciiWhitespace)
}

/// A class that neither starts nor ends with Unicode whitespace.
pub open spec fn has_plain_ends(w: Seq<char>) -> bool {
    w.len() > 0 && !is_unicode_ws(w[0]) && !is_unicode_ws(w.last())
}

proof fn lemma_split_pieces(s: Seq<char>, sep: Separator, cur: Seq<char>)
    requires
        free_of(cur, sep),
    ensures
        forall|k: int|
            0 <= k < split_from(s, sep, cur).len() ==> (#[trigger] split_from(s, sep, cur)[k]).len()
                > 0 && free_of(split_from(s, sep, cur)[k], sep),
    decreases s.len(),
{
    if s.len() == 0 {
        assert forall|k: int| 0 <= k < split_from(s, sep, cur).len() implies (
        #[trigger] split_from(s, sep, cur)[k]).len() > 0 && free_of(split_from(s, sep, cur)[k], sep) by {
            assert(split_from(s, sep, cur)[k] == cur);
        }
    } else if is_sep(sep, s[0]) {
        lemma_split_pieces(s.drop_first(), sep, Seq::empty());
        let rest = split_from(s.drop_first(), sep, Seq::empty());
        assert forall|k: int| 0 <= k < split_from(s, sep, cur).len() implies (
        #[trigger] split_from(s, sep, cur)[k]).len() > 0 && free_of(split_from(s, sep, cur)[k], sep) by {
            if k >= flush(cur).len() {
                assert(split_from(s, sep, cur)[k] == rest[k - flush(cur).len()]);
            } else {
                assert(split_from(s, sep, cur)[k] == cur);
            }
        }
    } else {
        let next = cur.push(s[0]);
        assert forall|i: int| 0 <= i < next.len() implies !is_sep(sep, #[trigger] next[i]) by {
            if i < cur.len() {
                assert(next[i] == cur[i]);
            }
        }
        lemma_split_pieces(s.drop_first(), sep, next);
        assert(split_from(s, sep, cur) == split_from(s.drop_first(), sep, next));
    }
}

/// The pieces of a split are nonempty and hold no separator.
pub proof fn lemma_split_runs_pieces(s: Seq<char>, sep: Separator)
    ensures
        forall|k: int|
            0 <= k < split_runs(s, sep).len() ==> (#[trigger] split_runs(s, sep)[k]).len() > 0
                && free_of(split_runs(s, sep)[k], sep),
{
    lemma_split_pieces(s, sep, Seq::empty());
}

proof fn lemma_split_concat(x: Seq<char>, c: char, y: Seq<char>, sep: Separator, cur: Seq<char>)
    requires
        is_sep(sep, c),
    ensures
        split_from(x + seq![c] + y, sep, cur) == split_from(x, sep, cur) + split_from(
            y,
            sep,
            Seq::empty(),
        ),
    decreases x.len(),
{
    let s = x + seq![c] + y;
    if x.len() == 0 {
        assert(s[0] == c);
        assert(s.drop_first() =~= y);
    } else {
        assert(s[0] == x[0]);
        assert(s.drop_first() =~= x.drop_first() + seq![c] + y);
        if is_sep(sep, x[0]) {
            lemma_split_concat(x.drop_first(), c, y, sep, Seq::empty());
            assert(flush(cur) + (split_from(x.drop_first(), sep, Seq::empty()) + split_from(
                y,
                sep,
                Seq::empty(),
            )) =~= flush(cur) + split_from(x.drop_first(), sep, Seq::empty()) + split_from(
                y,
                sep,
                Seq::empty(),
            ));
        } else {
            lemma_split_concat(x.drop_first(), c, y, sep, cur.push(x[0]));
        }
    }
}

proof fn lemma_split_word(w: Seq<char>, sep: Separator, cur: Seq<char>)
    requires
        free_of(w, sep),
    ensures
        split_from(w, sep, cur) == flush(cur + w),
    decreases w.len(),
{
    if w.len() == 0 {
        assert(cur + w =~= cur);
    } else {
        assert(!is_sep(sep, w[0]));
        assert forall|i: int| 0 <= i < w.drop_first().len() implies !is_sep(
            sep,
            #[trigger] w.drop_first()[i],
        ) by {
            assert(w.drop_first()[i] == w[i + 1]);
        }
        lemma_split_word(w.drop_first(), sep, cur.push(w[0]));
        assert(cur.push(w[0]) + w.drop_first() =~= cur + w);
    }
}

/// Splitting words joined by spaces gives the words back.
pub proof fn lemma_split_join(ws: Seq<Seq<char>>)
    requires
        forall|k: int| 0 <= k < ws.len() ==> is_class_word(#[trigger] ws[k]),
    ensures
        split_runs(join_words(ws), Separator::AsciiWhitespace) == ws,
    decreases ws.len(),
{
    let sep = Separator::AsciiWhitespace;
    if ws.len() == 0 {
        assert(split_runs(join_words(ws), sep) =~= ws);
    } else if ws.len() == 1 {
        assert(is_class_word(ws[0]));
        lemma_split_word(ws[0], sep, Seq::empty());
        assert(Seq::<char>::empty() + ws[0] =~= ws[0]);
        assert(split_runs(join_words(ws), sep) =~= ws);
    } else {
        let init = ws.drop_last();
        assert forall|k: int| 0 <= k < init.len() implies is_class_word(#[trigger] init[k]) by {
            assert(init[k] == ws[k]);
        }
        lemma_split_join(init);
        assert(is_class_word(ws[ws.len() - 1]));
        lemma_split_concat(join_words(init), ' ', ws.last(), sep, Seq::empty());
        lemma_split_word(ws.last(), sep, Seq::empty());
        assert(Seq::<char>::empty() + ws.last() =~= ws.last());
        assert(split_runs(join_words(ws), sep) =~= ws);
    }
}

/// The joined words start with the first word's first character and end with
/// the last word's last character.
proof fn lemma_join_ends(ws: Seq<Seq<char>>)
    requires
        ws.len() > 0,
        forall|k: int| 0 <= k < ws.len() ==> (#[trigger] ws[k]).len() > 0,
    ensures
        join_words(ws).len() > 0,
        join_words(ws)[0] == ws[0][0],
        join_words(ws).last() == ws.last().last(),
    decreases ws.len(),
{
    if ws.len() > 1 {
        let init = ws.drop_last();
        assert forall|k: int| 0 <= k < init.len() implies (#[trigger] init[k]).len() > 0 by {
            assert(init[k] == ws[k]);
        }
        lemma_join_ends(init);
        assert(init[0] == ws[0]);
        assert(ws[ws.len() - 1].len() > 0);
    } else {
        assert(ws[0].len() > 0);
    }
}

proof fn lemma_leading_ws_plain(t: Seq<char>)
    requires
        t.len() > 0,
        !is_unicode_ws(t[0]),
    ensures
        leading_ws(t) == 0,
{
}

proof fn lemma_trailing_ws_plain(t: Seq<char>)
    requires
        t.len() > 0,
        !is_unicode_ws(t.last()),
    ensures
        trailing_ws(t) == 0,
{
}

/// Trimming drops the spaces that were put around text with plain ends.
proof fn lemma_trim_padded(t: Seq<char>, front: bool, back: bool)
    requires
        t.len() > 0,
        !is_unicode_ws(t[0]),
        !is_unicode_ws(t.last()),
    ensures
        trim(
            (if front {
                seq![' ']
            } else {
                Seq::empty()
            }) + t + (if back {
                seq![' ']
            } else {
                Seq::empty()
            }),
        ) == t,
{
    let a: Seq<char> = if front {
        seq![' ']
    } else {
        Seq::empty()
    };
    let b: Seq<char> = if back {
        seq![' ']
    } else {
        Seq::empty()
    };
    let s = a + t + b;
    let tb = t + b;
    assert(tb[0] == t[0]);
    lemma_leading_ws_plain(tb);
    if front {
        assert(s[0] == ' ');
        assert(s.drop_first() =~= tb);
    } else {
        assert(s =~= tb);
    }
    assert(leading_ws(s) == a.len());
    let at = a + t;
    assert(at.last() == t.last());
    lemma_trailing_ws_plain(at);
    if back {
        assert(s.last() == ' ');
        assert(s.drop_last() =~= at);
    } else {
        assert(s =~= at);
    }
    assert(trailing_ws(s) == b.len());
    assert(s.subrange(a.len() as int, s.len() - b.len()) =~= t);
}

/// The keys of an arrangement, each at its new place, are sorted as they stand.
proof fn lemma_reindexed_sorted(cs: Seq<Seq<char>>, p: Seq<int>)
    requires
        is_sorted_arrangement(keys_of_classes(tailwind_table(), cs), p),
    ensures
        is_sorted_arrangement(
            keys_of_classes(tailwind_table(), arranged(cs, p)),
            Seq::new(p.len(), |k: int| k),
        ),
{
    let keys = keys_of_classes(tailwind_table(), cs);
    let ws = arranged(cs, p);
    let nkeys = keys_of_classes(tailwind_table(), ws);
    let id = Seq::new(p.len(), |k: int| k);
    assert forall|i: int| 0 <= i < p.len() implies #[trigger] lists(id, i) by {
        assert(id[i] == i);
    }
    assert(is_permutation(id, nkeys.len()));
    assert forall|k: int| 0 <= k < id.len() - 1 implies comes_before(
        nkeys[#[trigger] id[k]],
        nkeys[id[k + 1]],
    ) by {
        reveal(comes_before);
        assert(comes_before(keys[p[k]], keys[p[k + 1]]));
        assert(0 <= p[k] < cs.len() && 0 <= p[k + 1] < cs.len());
        assert(nkeys[k] == key_of_class(tailwind_table(), cs[p[k]], k as nat));
        assert(nkeys[k + 1] == key_of_class(tailwind_table(), cs[p[k + 1]], (k + 1) as nat));
        assert(keys[p[k]] == key_of_class(tailwind_table(), cs[p[k]], p[k] as nat));
        assert(keys[p[k + 1]] == key_of_class(tailwind_table(), cs[p[k + 1]], p[k + 1] as nat));
    }
}

proof fn lemma_first_occurrences_of_distinct(ws: Seq<Seq<char>>)
    requires
        forall|i: int, j: int| 0 <= i < j < ws.len() ==> ws[i] != ws[j],
    ensures
        first_occurrences(ws) == ws,
    decreases ws.len(),
{
    if ws.len() > 0 {
        let init = ws.drop_last();
        lemma_first_occurrences_of_distinct(init);
        if init.contains(ws.last()) {
            let k = choose|k: int| 0 <= k < init.len() && init[k] == ws.last();
            assert(ws[k] == ws[ws.len() - 1]);
        }
        assert(init.push(ws.last()) =~= ws);
    }
}

/// Sorting the result of a sort again gives it back, when no class starts or
/// ends with Unicode whitespace (which trimming the sorted string would remove).
#[verifier::rlimit(80)]
pub proof fn sorting_twice_changes_nothing(opts: SortOptions, s: Seq<char>)
    requires
        forall|i: int| 0 <= i < class_list(s).len() ==> has_plain_ends(#[trigger] class_list(s)[i]),
    ensures
        insertion_sorted(opts, insertion_sorted(opts, s)) == insertion_sorted(opts, s),
{
    let out = insertion_sorted(opts, s);
    if s.len() == 0 || trim(s).len() == 0 {
        if s.len() > 0 {
            assert(out =~= seq![' ']);
            assert(trim(out).len() == 0);
        }
    } else {
        let cs = classes_to_sort(opts, s);
        let keys = keys_of_classes(tailwind_table(), cs);
        let p = insertion_order(keys, cs.len());
        assert forall|i: int| 0 <= i < keys.len() implies (#[trigger] keys[i]).original_index == i by {}
        insertion_order_is_sorted(keys);
        let ws = arranged(cs, p);
        let body = join_words(ws);
        let all = class_list(s);
        lemma_split_runs_pieces(trim(s), Separator::AsciiWhitespace);
        // every class to sort is a class of `s`
        assert forall|i: int| 0 <= i < cs.len() implies is_class_word(#[trigger] cs[i])
            && has_plain_ends(cs[i]) by {
            let c = cs[i];
            assert(cs.contains(c));
            if !opts.preserve_duplicates {
                crate::laws::first_occurrences_distinct(all);
                assert(first_occurrences(all).contains(c));
            }
            assert(all.contains(c));
            let j = choose|j: int| 0 <= j < all.len() && all[j] == c;
            assert(has_plain_ends(all[j]));
            assert(all[j].len() > 0 && free_of(all[j], Separator::AsciiWhitespace));
        }
        assert forall|k: int| 0 <= k < ws.len() implies is_class_word(#[trigger] ws[k])
            && has_plain_ends(ws[k]) by {
            assert(0 <= p[k] < cs.len());
            assert(ws[k] == cs[p[k]]);
        }
        // `s` has at least one class
        assert(cs.len() > 0) by {
            assert(all.len() > 0) by {
                let t = trim(s);
                if all.len() == 0 {
                    crate::text::lemma_trim_starts_plain(s);
                    assert(!is_ascii_ws(t[0]));
                    crate::text::lemma_split_nonempty(t, Separator::AsciiWhitespace);
                }
            }
            if !opts.preserve_duplicates {
                crate::laws::first_occurrences_distinct(all);
                assert(all.contains(all[0]));
                if first_occurrences(all).len() == 0 {
                    assert(!first_occurrences(all).contains(all[0]));
                }
            }
        }
        assert(p.len() == cs.len());
        assert(ws.len() > 0);
        assert forall|k: int| 0 <= k < ws.len() implies (#[trigger] ws[k]).len() > 0 by {
            assert(is_class_word(ws[k]));
        }
        lemma_join_ends(ws);
        assert(has_plain_ends(ws[0]));
        assert(has_plain_ends(ws[ws.len() - 1]));
        let front = opts.preserve_whitespace && is_ascii_ws(s[0]);
        let back = opts.preserve_whitespace && is_ascii_ws(s.last());
        assert(out =~= (if front {
            seq![' ']
        } else {
            Seq::empty()
        }) + body + (if back {
            seq![' ']
        } else {
            Seq::empty()
        }));
        lemma_trim_padded(body, front, back);
        lemma_split_join(ws);
        assert(class_list(out) == ws);
        // the classes of `out` are `ws`, without repeats when those are dropped
        let cs2 = classes_to_sort(opts, out);
        if !opts.preserve_duplicates {
            crate::laws::first_occurrences_distinct(class_list(s));
            assert forall|i: int, j: int| 0 <= i < j < ws.len() implies ws[i] != ws[j] by {
                assert(ws[i] == cs[p[i]]);
                assert(ws[j] == cs[p[j]]);
                assert(p[i] != p[j]);
            }
            lemma_first_occurrences_of_distinct(ws);
        }
        assert(cs2 == ws);
        let keys2 = keys_of_classes(tailwind_table(), ws);
        lemma_reindexed_sorted(cs, p);
        let id = Seq::new(p.len(), |k: int| k);
        assert(trim(out) == body);
        assert(out.len() > 0);
        insertion_order_of_sorted(keys2, ws.len());
        assert(insertion_order(keys2, ws.len()) == id);
        assert(arranged(ws, id) =~= ws);
        // the spaces around `body` are kept as they are
        if opts.preserve_whitespace {
            assert(body[0] == ws[0][0]);
            assert(!is_ascii_ws(ws[0][0]));
            assert(body.last() == ws.last().last());
            assert(!is_ascii_ws(ws.last()[ws.last().len() - 1]));
            if front {
                assert(out[0] == ' ');
            } else {
                assert(out[0] == body[0]);
            }
            if back {
                assert(out.last() == ' ');
            } else {
                assert(out.last() == body.last());
            }
        }
    }
}

} // verus!

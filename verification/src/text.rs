//! Character classes, splitting and trimming of class strings.
//!
//! Strings are modelled by their view, a `Seq<char>`; the executable code
//! works on a `Vec<char>` copy of a string and hands back index ranges.
use vstd::prelude::*;

verus! {

/// `char::is_ascii_whitespace`: space, tab, line feed, form feed, carriage return.
pub open spec fn is_ascii_ws(c: char) -> bool {
    c == ' ' || c == '\t' || c == '\n' || c == '\x0C' || c == '\r'
}

/// `char::is_whitespace`: the Unicode `White_Space` property, the set that `str::trim` removes.
pub open spec fn is_unicode_ws(c: char) -> bool {
    ||| ('\t' <= c && c <= '\r')
    ||| c == ' '
    ||| c == '\u{85}'
    ||| c == '\u{a0}'
    ||| c == '\u{1680}'
    ||| ('\u{2000}' <= c && c <= '\u{200a}')
    ||| c == '\u{2028}'
    ||| c == '\u{2029}'
    ||| c == '\u{202f}'
    ||| c == '\u{205f}'
    ||| c == '\u{3000}'
}

pub fn ascii_ws(c: char) -> (r: bool)
    ensures
        r == is_ascii_ws(c),
{
    c == ' ' || c == '\t' || c == '\n' || c == '\x0C' || c == '\r'
}

pub fn unicode_ws(c: char) -> (r: bool)
    ensures
        r == is_unicode_ws(c),
{
    ('\t' <= c && c <= '\r') || c == ' ' || c == '\u{85}' || c == '\u{a0}' || c == '\u{1680}'
        || ('\u{2000}' <= c && c <= '\u{200a}') || c == '\u{2028}' || c == '\u{2029}' || c
        == '\u{202f}' || c == '\u{205f}' || c == '\u{3000}'
}

/// Which characters separate the pieces of a split.
#[derive(Clone, Copy, PartialEq, Eq, Debug)]
pub enum Separator {
    /// ASCII whitespace, as `str::split_ascii_whitespace` uses.
    AsciiWhitespace,
    /// `:` and `,`, which separate the fields of a table entry.
    FieldMark,
    /// Line feed, which separates the entries of a table text.
    LineBreak,
}

pub open spec fn is_sep(sep: Separator, c: char) -> bool {
    match sep {
        Separator::AsciiWhitespace => is_ascii_ws(c),
        Separator::FieldMark => c == ':' || c == ',',
        Separator::LineBreak => c == '\n',
    }
}

pub fn separates(sep: Separator, c: char) -> (r: bool)
    ensures
        r == is_sep(sep, c),
{
    match sep {
        Separator::AsciiWhitespace => ascii_ws(c),
        Separator::FieldMark => c == ':' || c == ',',
        Separator::LineBreak => c == '\n',
    }
}

/// The word in progress, as a piece list of zero or one piece.
pub open spec fn flush(cur: Seq<char>) -> Seq<Seq<char>> {
    if cur.len() > 0 {
        seq![cur]
    } else {
        Seq::empty()
    }
}

/// Split `s` into its maximal runs of non-separator characters, `cur` being
/// the part of a run already read.
pub open spec fn split_from(s: Seq<char>, sep: Separator, cur: Seq<char>) -> Seq<Seq<char>>
    decreases s.len(),
{
    if s.len() == 0 {
        flush(cur)
    } else if is_sep(sep, s[0]) {
        flush(cur) + split_from(s.drop_first(), sep, Seq::empty())
    } else {
        split_from(s.drop_first(), sep, cur.push(s[0]))
    }
}

/// The maximal runs of non-separator characters of `s`, in order: what
/// `split_ascii_whitespace` gives for `Separator::AsciiWhitespace`.
pub open spec fn split_runs(s: Seq<char>, sep: Separator) -> Seq<Seq<char>> {
    split_from(s, sep, Seq::empty())
}

proof fn lemma_split_from_open_word(s: Seq<char>, sep: Separator, cur: Seq<char>)
    requires
        cur.len() > 0,
    ensures
        split_from(s, sep, cur).len() > 0,
    decreases s.len(),
{
    if s.len() > 0 && !is_sep(sep, s[0]) {
        lemma_split_from_open_word(s.drop_first(), sep, cur.push(s[0]));
    }
}

/// A text that starts with a non-separator has at least one piece.
pub proof fn lemma_split_nonempty(s: Seq<char>, sep: Separator)
    requires
        s.len() > 0,
        !is_sep(sep, s[0]),
    ensures
        split_runs(s, sep).len() > 0,
{
    lemma_split_from_open_word(s.drop_first(), sep, Seq::empty().push(s[0]));
}

/// The characters of a string slice.
pub fn chars_of(s: &str) -> (v: Vec<char>)
    ensures
        v@ == s@,
{
    let mut v: Vec<char> = Vec::new();
    for c in it: s.chars()
        invariant
            v@ == it.seq().take(it.index() as int),
    {
        v.push(c);
    }
    v
}

/// Whether `a` equals `s[lo..hi]`.
pub fn equals_range(a: &Vec<char>, s: &Vec<char>, lo: usize, hi: usize) -> (r: bool)
    requires
        lo <= hi <= s@.len(),
    ensures
        r == (a@ == s@.subrange(lo as int, hi as int)),
{
    if a.len() != hi - lo {
        return false;
    }
    let mut i: usize = 0;
    while i < a.len()
        invariant
            a@.len() == hi - lo,
            lo <= hi <= s@.len(),
            i <= a@.len(),
            forall|j: int| 0 <= j < i ==> a@[j] == s@[lo + j],
        decreases a@.len() - i,
    {
        if a[i] != s[lo + i] {
            assert(a@[i as int] != s@.subrange(lo as int, hi as int)[i as int]);
            return false;
        }
        i = i + 1;
    }
    assert(a@ =~= s@.subrange(lo as int, hi as int));
    true
}

/// Whether two character vectors are equal.
pub fn equals(a: &Vec<char>, b: &Vec<char>) -> (r: bool)
    ensures
        r == (a@ == b@),
{
    let r = equals_range(a, b, 0, b.len());
    assert(b@.subrange(0, b@.len() as int) =~= b@);
    r
}

/// Whether two string slices hold the same characters.
pub fn str_equal(a: &str, b: &str) -> (r: bool)
    ensures
        r == (a@ == b@),
{
    let ca = chars_of(a);
    let cb = chars_of(b);
    equals(&ca, &cb)
}

/// A copy of `s[lo..hi]`.
pub fn copy_range(s: &Vec<char>, lo: usize, hi: usize) -> (v: Vec<char>)
    requires
        lo <= hi <= s@.len(),
    ensures
        v@ == s@.subrange(lo as int, hi as int),
{
    let mut v: Vec<char> = Vec::new();
    let mut i = lo;
    while i < hi
        invariant
            lo <= i <= hi <= s@.len(),
            v@ == s@.subrange(lo as int, i as int),
        decreases hi - i,
    {
        v.push(s[i]);
        i = i + 1;
        assert(v@ =~= s@.subrange(lo as int, i as int));
    }
    v
}

/// The pieces of `s[lo..hi]` between separators, as index ranges into `s`.
pub fn split_range(s: &Vec<char>, lo: usize, hi: usize, sep: Separator) -> (r: Vec<(usize, usize)>)
    requires
        lo <= hi <= s@.len(),
    ensures
        r@.len() == split_runs(s@.subrange(lo as int, hi as int), sep).len(),
        forall|k: int|
            0 <= k < r@.len() ==> lo <= (#[trigger] r@[k]).0 < r@[k].1 <= hi && s@.subrange(
                r@[k].0 as int,
                r@[k].1 as int,
            ) == split_runs(s@.subrange(lo as int, hi as int), sep)[k],
{
    let ghost whole = s@.subrange(lo as int, hi as int);
    let ghost out: Seq<Seq<char>> = Seq::empty();
    let mut r: Vec<(usize, usize)> = Vec::new();
    let mut start = lo;
    let mut i = lo;
    assert(s@.subrange(lo as int, hi as int).skip(0) =~= whole);
    assert(s@.subrange(start as int, i as int) =~= Seq::<char>::empty());
    while i < hi
        invariant
            lo <= start <= i <= hi <= s@.len(),
            whole == s@.subrange(lo as int, hi as int),
            out.len() == r@.len(),
            forall|k: int|
                0 <= k < r@.len() ==> lo <= (#[trigger] r@[k]).0 < r@[k].1 <= start
                    && s@.subrange(r@[k].0 as int, r@[k].1 as int) == out[k],
            out + split_from(
                whole.skip(i - lo),
                sep,
                s@.subrange(start as int, i as int),
            ) == split_runs(whole, sep),
        decreases hi - i,
    {
        let ghost rest = whole.skip(i - lo);
        assert(rest[0] == s@[i as int]);
        assert(rest.drop_first() =~= whole.skip(i + 1 - lo));
        let c = s[i];
        if separates(sep, c) {
            proof {
                let cur = s@.subrange(start as int, i as int);
                assert(split_from(rest, sep, cur) == flush(cur) + split_from(
                    rest.drop_first(),
                    sep,
                    Seq::empty(),
                ));
                assert(out + flush(cur) + split_from(rest.drop_first(), sep, Seq::empty())
                    =~= out + (flush(cur) + split_from(rest.drop_first(), sep, Seq::empty())));
                if start < i {
                    out = out.push(cur);
                } 
            }
            if start < i {
                r.push((start, i));
            }
            i = i + 1;
            start = i;
            assert(s@.subrange(start as int, i as int) =~= Seq::<char>::empty());
        } else {
            proof {
                let cur = s@.subrange(start as int, i as int);
                assert(cur.push(c) =~= s@.subrange(start as int, i + 1));
            }
            i = i + 1;
        }
    }
    proof {
        let cur = s@.subrange(start as int, i as int);
        assert(whole.skip(i - lo).len() == 0);
        assert(out + flush(cur) == split_runs(whole, sep));
        if start < i {
            out = out.push(cur);
        } else {
            assert(out + flush(cur) =~= out);
        }
    }
    if start < i {
        r.push((start, i));
    }
    r
}

/// Number of leading Unicode whitespace characters.
pub open spec fn leading_ws(s: Seq<char>) -> nat
    decreases s.len(),
{
    if s.len() == 0 || !is_unicode_ws(s[0]) {
        0
    } else {
        1 + leading_ws(s.drop_first())
    }
}

/// Number of trailing Unicode whitespace characters.
pub open spec fn trailing_ws(s: Seq<char>) -> nat
    decreases s.len(),
{
    if s.len() == 0 || !is_unicode_ws(s.last()) {
        0
    } else {
        1 + trailing_ws(s.drop_last())
    }
}

/// `str::trim`: `s` without its leading and trailing Unicode whitespace.
pub open spec fn trim(s: Seq<char>) -> Seq<char> {
    if leading_ws(s) >= s.len() {
        Seq::empty()
    } else {
        s.subrange(leading_ws(s) as int, s.len() - trailing_ws(s))
    }
}

proof fn lemma_leading_ws_stops(s: Seq<char>)
    ensures
        leading_ws(s) <= s.len(),
        leading_ws(s) < s.len() ==> !is_unicode_ws(s[leading_ws(s) as int]),
    decreases s.len(),
{
    if s.len() > 0 && is_unicode_ws(s[0]) {
        lemma_leading_ws_stops(s.drop_first());
    }
}

proof fn lemma_trailing_ws_bound(s: Seq<char>, i: int)
    requires
        0 <= i < s.len(),
        !is_unicode_ws(s[i]),
    ensures
        trailing_ws(s) <= s.len() - 1 - i,
    decreases s.len(),
{
    if s.len() - 1 > i && is_unicode_ws(s.last()) {
        assert(s.drop_last()[i] == s[i]);
        lemma_trailing_ws_bound(s.drop_last(), i);
    }
}

/// Trimmed text that is not empty starts with a non-whitespace character.
pub proof fn lemma_trim_starts_plain(s: Seq<char>)
    requires
        trim(s).len() > 0,
    ensures
        !is_unicode_ws(trim(s)[0]),
{
    lemma_leading_ws_stops(s);
    lemma_trailing_ws_bound(s, leading_ws(s) as int);
    assert(trim(s)[0] == s[leading_ws(s) as int]);
}

proof fn lemma_leading_ws(s: Seq<char>, i: int)
    requires
        0 <= i <= s.len(),
        forall|j: int| 0 <= j < i ==> is_unicode_ws(#[trigger] s[j]),
        i == s.len() || !is_unicode_ws(s[i]),
    ensures
        leading_ws(s) == i,
    decreases i,
{
    if i > 0 {
        assert forall|j: int| 0 <= j < i - 1 implies is_unicode_ws(#[trigger] s.drop_first()[j]) by {
            assert(s.drop_first()[j] == s[j + 1]);
        }
        if i < s.len() {
            assert(s.drop_first()[i - 1] == s[i]);
        }
        lemma_leading_ws(s.drop_first(), i - 1);
    }
}

proof fn lemma_trailing_ws(s: Seq<char>, i: int)
    requires
        0 <= i <= s.len(),
        forall|j: int| i <= j < s.len() ==> is_unicode_ws(#[trigger] s[j]),
        i == 0 || !is_unicode_ws(s[i - 1]),
    ensures
        trailing_ws(s) == s.len() - i,
    decreases s.len() - i,
{
    if i < s.len() {
        assert forall|j: int| i <= j < s.len() - 1 implies is_unicode_ws(
            #[trigger] s.drop_last()[j],
        ) by {
            assert(s.drop_last()[j] == s[j]);
        }
        if i > 0 {
            assert(s.drop_last()[i - 1] == s[i - 1]);
        }
        lemma_trailing_ws(s.drop_last(), i);
    }
}

/// The range `lo..hi` of `s` that `str::trim` keeps; `lo == hi` when nothing is kept.
pub fn trim_bounds(s: &Vec<char>) -> (r: (usize, usize))
    ensures
        r.0 <= r.1 <= s@.len(),
        s@.subrange(r.0 as int, r.1 as int) == trim(s@),
{
    let n = s.len();
    let mut lo: usize = 0;
    while lo < n && unicode_ws(s[lo])
        invariant
            lo <= n == s@.len(),
            forall|j: int| 0 <= j < lo ==> is_unicode_ws(#[trigger] s@[j]),
        decreases n - lo,
    {
        lo = lo + 1;
    }
    proof {
        lemma_leading_ws(s@, lo as int);
    }
    if lo == n {
        assert(s@.subrange(lo as int, lo as int) =~= Seq::<char>::empty());
        return (lo, lo);
    }
    let mut hi: usize = n;
    while hi > lo && unicode_ws(s[hi - 1])
        invariant
            lo < n == s@.len(),
            !is_unicode_ws(s@[lo as int]),
            lo <= hi <= n,
            forall|j: int| hi <= j < n ==> is_unicode_ws(#[trigger] s@[j]),
        decreases hi,
    {
        hi = hi - 1;
    }
    proof {
        lemma_trailing_ws(s@, hi as int);
    }
    (lo, hi)
}

/// `c` may begin an entry of a table text: it is neither `-` nor a field mark.
pub open spec fn plain_start(c: char) -> bool {
    c != '-' && !is_sep(Separator::FieldMark, c)
}

/// The line feed character.
pub open spec fn is_line_break(c: char) -> bool {
    c == '\n'
}

/// Every line of `s` after the first that is not empty begins with a plain
/// character.
#[verifier::opaque]
pub open spec fn later_lines_start_plain(s: Seq<char>) -> bool {
    forall|i: int|
        0 <= i < s.len() - 1 && is_line_break(#[trigger] s[i]) && !is_line_break(s[i + 1])
            ==> plain_start(s[i + 1])
}

/// Every line of `s` that is not empty begins with a plain character.
pub open spec fn entries_start_plain(s: Seq<char>) -> bool {
    &&& s.len() > 0 && !is_line_break(s[0]) ==> plain_start(s[0])
    &&& later_lines_start_plain(s)
}

proof fn lemma_runs_start_plain_from(s: Seq<char>, cur: Seq<char>)
    requires
        cur.len() > 0 ==> plain_start(cur[0]),
        cur.len() == 0 && s.len() > 0 && !is_line_break(s[0]) ==> plain_start(s[0]),
        forall|i: int|
            0 <= i < s.len() - 1 && is_line_break(#[trigger] s[i]) && !is_line_break(s[i + 1])
                ==> plain_start(s[i + 1]),
    ensures
        forall|k: int|
            0 <= k < split_from(s, Separator::LineBreak, cur).len() ==> (#[trigger] split_from(
                s,
                Separator::LineBreak,
                cur,
            )[k]).len() > 0 && plain_start(split_from(s, Separator::LineBreak, cur)[k][0]),
    decreases s.len(),
{
    let sep = Separator::LineBreak;
    if s.len() > 0 {
        let t = s.drop_first();
        assert forall|i: int|
            0 <= i < t.len() - 1 && is_line_break(#[trigger] t[i]) && !is_line_break(t[i + 1])
                implies plain_start(t[i + 1]) by {
            assert(s[i + 1] == t[i]);
            assert(s[i + 2] == t[i + 1]);
        }
        if is_line_break(s[0]) {
            if t.len() > 0 && !is_line_break(t[0]) {
                assert(s[1] == t[0]);
                assert(is_line_break(s[0]));
            }
            lemma_runs_start_plain_from(t, Seq::empty());
            let a = flush(cur);
            let b = split_from(t, sep, Seq::empty());
            assert(split_from(s, sep, cur) == a + b);
            assert forall|k: int| 0 <= k < (a + b).len() implies (#[trigger] (a + b)[k]).len() > 0
                && plain_start((a + b)[k][0]) by {
                if k >= a.len() {
                    assert((a + b)[k] == b[k - a.len()]);
                }
            }
        } else {
            let c2 = cur.push(s[0]);
            assert(c2[0] == if cur.len() > 0 {
                cur[0]
            } else {
                s[0]
            });
            lemma_runs_start_plain_from(t, c2);
            assert(split_from(s, sep, cur) == split_from(t, sep, c2));
        }
    } else if cur.len() > 0 {
        assert(split_from(s, sep, cur) == seq![cur]);
        assert(split_from(s, sep, cur)[0] == cur);
    } else {
        assert(split_from(s, sep, cur).len() == 0);
    }
}

/// When every line of `s` begins with a plain character, so do the pieces of
/// its split at line breaks.
pub proof fn lemma_runs_start_plain(s: Seq<char>)
    requires
        entries_start_plain(s),
    ensures
        forall|k: int|
            0 <= k < split_runs(s, Separator::LineBreak).len() ==> (#[trigger] split_runs(
                s,
                Separator::LineBreak,
            )[k]).len() > 0 && plain_start(split_runs(s, Separator::LineBreak)[k][0]),
{
    reveal(later_lines_start_plain);
    lemma_runs_start_plain_from(s, Seq::empty());
}

proof fn lemma_first_run_start(s: Seq<char>, sep: Separator, cur: Seq<char>)
    requires
        cur.len() > 0,
    ensures
        split_from(s, sep, cur).len() > 0,
        split_from(s, sep, cur)[0].len() > 0,
        split_from(s, sep, cur)[0][0] == cur[0],
    decreases s.len(),
{
    if s.len() > 0 && !is_sep(sep, s[0]) {
        lemma_first_run_start(s.drop_first(), sep, cur.push(s[0]));
    }
}

/// A text that starts with a non-separator starts its first piece.
pub proof fn lemma_first_piece_start(s: Seq<char>, sep: Separator)
    requires
        s.len() > 0,
        !is_sep(sep, s[0]),
    ensures
        split_runs(s, sep).len() > 0,
        split_runs(s, sep)[0].len() > 0,
        split_runs(s, sep)[0][0] == s[0],
{
    lemma_first_run_start(s.drop_first(), sep, Seq::empty().push(s[0]));
}

} // verus!

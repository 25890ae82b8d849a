//! Telling size and keyword values from colour values after an ambiguous prefix
//! such as `border-` or `ring-`.
use vstd::prelude::*;
use crate::text::{chars_of, equals};

verus! {

pub open spec fn is_digit(c: char) -> bool {
    '0' <= c && c <= '9'
}

pub open spec fn starts_with(s: Seq<char>, p: Seq<char>) -> bool {
    p.len() <= s.len() && s.take(p.len() as int) == p
}

pub open spec fn ends_with(s: Seq<char>, p: Seq<char>) -> bool {
    p.len() <= s.len() && s.skip(s.len() - p.len()) == p
}

/// `s` spells `lower` with each letter in either the case of `lower` or that of `upper`.
pub open spec fn spells_ignoring_case(s: Seq<char>, lower: Seq<char>, upper: Seq<char>) -> bool {
    &&& s.len() == lower.len()
    &&& lower.len() == upper.len()
    &&& forall|i: int| 0 <= i < s.len() ==> #[trigger] s[i] == lower[i] || s[i] == upper[i]
}

/// `s` without one leading `+` or `-`.
pub open spec fn unsigned_part(s: Seq<char>) -> Seq<char> {
    if s.len() > 0 && (s[0] == '+' || s[0] == '-') {
        s.drop_first()
    } else {
        s
    }
}

/// Index of the first `e` or `E` of `s`, or its length.
pub open spec fn exponent_start(s: Seq<char>) -> nat
    decreases s.len(),
{
    if s.len() == 0 {
        0
    } else if s[0] == 'e' || s[0] == 'E' {
        0
    } else {
        1 + exponent_start(s.drop_first())
    }
}

/// `Digit+ | Digit+ '.' Digit* | Digit* '.' Digit+`: digits and at most
/// one `.`, with at least one digit.
pub open spec fn is_mantissa(m: Seq<char>) -> bool {
    &&& forall|i: int| 0 <= i < m.len() ==> is_digit(#[trigger] m[i]) || m[i] == '.'
    &&& forall|i: int, j: int|
        #![trigger m[i], m[j]]
        0 <= i < m.len() && 0 <= j < m.len() && m[i] == '.' && m[j] == '.' ==> i == j
    &&& exists|i: int| 0 <= i < m.len() && is_digit(#[trigger] m[i])
}

pub open spec fn is_digits(d: Seq<char>) -> bool {
    d.len() > 0 && forall|i: int| 0 <= i < d.len() ==> is_digit(#[trigger] d[i])
}

/// Empty, or `('e' | 'E') Sign? Digit+`.
pub open spec fn is_exponent(x: Seq<char>) -> bool {
    x.len() == 0 || ((x[0] == 'e' || x[0] == 'E') && is_digits(unsigned_part(x.drop_first())))
}

/// Whether `str::parse::<f64>` accepts `s`. Its documentation gives the grammar,
/// read case-insensitively:
/// `Sign? ('inf' | 'infinity' | 'nan' | Number)`, where
/// `Number ::= (Digit+ | Digit+ '.' Digit* | Digit* '.' Digit+) Exp?`,
/// `Exp ::= 'e' Sign? Digit+`, `Sign ::= [+-]`.
pub open spec fn is_float_literal(s: Seq<char>) -> bool {
    let b = unsigned_part(s);
    ||| spells_ignoring_case(b, "inf"@, "INF"@)
    ||| spells_ignoring_case(b, "infinity"@, "INFINITY"@)
    ||| spells_ignoring_case(b, "nan"@, "NAN"@)
    ||| (is_mantissa(b.take(exponent_start(b) as int)) && is_exponent(
        b.skip(exponent_start(b) as int),
    ))
}

/// Number of copies of `c` that `s` starts with.
pub open spec fn leading_run(s: Seq<char>, c: char) -> nat
    decreases s.len(),
{
    if s.len() == 0 || s[0] != c {
        0
    } else {
        1 + leading_run(s.drop_first(), c)
    }
}

/// Number of copies of `c` that `s` ends with.
pub open spec fn trailing_run(s: Seq<char>, c: char) -> nat
    decreases s.len(),
{
    if s.len() == 0 || s.last() != c {
        0
    } else {
        1 + trailing_run(s.drop_last(), c)
    }
}

/// An arbitrary value `[...]` without its brackets: `trim_start_matches('[')`
/// followed by `trim_end_matches(']')`.
pub open spec fn bracket_inner(s: Seq<char>) -> Seq<char> {
    let t = s.skip(leading_run(s, '[') as int);
    t.take(t.len() - trailing_run(t, ']'))
}

/// An arbitrary value that reads as a length or number rather than a colour.
pub open spec fn is_numeric_arbitrary(inner: Seq<char>) -> bool {
    ||| (inner.len() > 0 && (is_digit(inner[0]) || inner[0] == '.' || inner[0] == '-'))
    ||| starts_with(inner, "calc("@)
    ||| starts_with(inner, "var("@)
    ||| ends_with(inner, "px"@)
    ||| ends_with(inner, "rem"@)
    ||| ends_with(inner, "em"@)
    ||| ends_with(inner, "%"@)
}

/// Whether the value `suffix` after the ambiguous prefix `prefix` is a size,
/// width or keyword (the prefix's default meaning) rather than a colour.
pub open spec fn numeric_or_keyword(prefix: Seq<char>, suffix: Seq<char>) -> bool {
    if suffix.len() == 0 {
        true
    } else if suffix[0] == '[' {
        is_numeric_arbitrary(bracket_inner(suffix))
    } else if prefix == "border"@ {
        is_float_literal(suffix)
    } else if prefix == "ring"@ || prefix == "inset-ring"@ {
        is_float_literal(suffix) || suffix == "inset"@
    } else if prefix == "shadow"@ || prefix == "inset-shadow"@ {
        ||| suffix == "sm"@
        ||| suffix == "md"@
        ||| suffix == "lg"@
        ||| suffix == "xl"@
        ||| suffix == "2xl"@
        ||| suffix == "none"@
        ||| suffix == "inner"@
        ||| suffix == "initial"@
    } else if prefix == "divide"@ {
        ||| suffix == "x"@
        ||| suffix == "y"@
        ||| suffix == "solid"@
        ||| suffix == "dashed"@
        ||| suffix == "dotted"@
        ||| suffix == "double"@
        ||| suffix == "none"@
    } else {
        false
    }
}

fn is_word(s: &Vec<char>, word: &str) -> (r: bool)
    ensures
        r == (s@ == word@),
{
    let w = chars_of(word);
    equals(s, &w)
}

fn digit(c: char) -> (r: bool)
    ensures
        r == is_digit(c),
{
    '0' <= c && c <= '9'
}

fn has_prefix(s: &Vec<char>, p: &str) -> (r: bool)
    ensures
        r == starts_with(s@, p@),
{
    let pc = chars_of(p);
    if pc.len() > s.len() {
        return false;
    }
    let mut i: usize = 0;
    while i < pc.len()
        invariant
            pc@ == p@,
            pc@.len() <= s@.len(),
            i <= pc@.len(),
            forall|j: int| 0 <= j < i ==> s@[j] == pc@[j],
        decreases pc@.len() - i,
    {
        if s[i] != pc[i] {
            assert(s@.take(pc@.len() as int)[i as int] != pc@[i as int]);
            return false;
        }
        i = i + 1;
    }
    assert(s@.take(pc@.len() as int) =~= pc@);
    true
}

fn has_suffix(s: &Vec<char>, p: &str) -> (r: bool)
    ensures
        r == ends_with(s@, p@),
{
    let pc = chars_of(p);
    if pc.len() > s.len() {
        return false;
    }
    let n = s.len();
    let off = n - pc.len();
    let mut i: usize = 0;
    while i < pc.len()
        invariant
            n == s@.len(),
            pc@ == p@,
            off + pc@.len() == s@.len(),
            i <= pc@.len(),
            forall|j: int| 0 <= j < i ==> s@[off + j] == pc@[j],
        decreases pc@.len() - i,
    {
        if s[off + i] != pc[i] {
            assert(s@.skip(off as int)[i as int] != pc@[i as int]);
            return false;
        }
        i = i + 1;
    }
    assert(s@.skip(off as int) =~= pc@);
    true
}

fn spells_word_ignoring_case(s: &Vec<char>, lo: usize, lower: &str, upper: &str) -> (r: bool)
    requires
        lo <= s@.len(),
    ensures
        r == spells_ignoring_case(s@.skip(lo as int), lower@, upper@),
{
    let lc = chars_of(lower);
    let uc = chars_of(upper);
    if s.len() - lo != lc.len() || lc.len() != uc.len() {
        return false;
    }
    let n = s.len();
    let mut i: usize = 0;
    while i < lc.len()
        invariant
            n == s@.len(),
            lc@ == lower@,
            uc@ == upper@,
            lc@.len() == uc@.len(),
            lo + lc@.len() == s@.len(),
            i <= lc@.len(),
            forall|j: int| 0 <= j < i ==> s@[lo + j] == lc@[j] || s@[lo + j] == uc@[j],
        decreases lc@.len() - i,
    {
        if s[lo + i] != lc[i] && s[lo + i] != uc[i] {
            assert(s@.skip(lo as int)[i as int] == s@[lo + i]);
            return false;
        }
        i = i + 1;
    }
    assert forall|j: int| 0 <= j < s@.skip(lo as int).len() implies #[trigger] s@.skip(
        lo as int,
    )[j] == lower@[j] || s@.skip(lo as int)[j] == upper@[j] by {
        assert(s@.skip(lo as int)[j] == s@[lo + j]);
    }
    true
}

proof fn lemma_exponent_start(s: Seq<char>, e: int)
    requires
        0 <= e <= s.len(),
        forall|j: int| 0 <= j < e ==> #[trigger] s[j] != 'e' && s[j] != 'E',
        e == s.len() || s[e] == 'e' || s[e] == 'E',
    ensures
        exponent_start(s) == e,
    decreases e,
{
    if e > 0 {
        assert forall|j: int| 0 <= j < e - 1 implies #[trigger] s.drop_first()[j] != 'e'
            && s.drop_first()[j] != 'E' by {
            assert(s.drop_first()[j] == s[j + 1]);
        }
        if e < s.len() {
            assert(s.drop_first()[e - 1] == s[e]);
        }
        lemma_exponent_start(s.drop_first(), e - 1);
    }
}

/// Whether `s[lo..hi]` is a nonempty run of digits.
fn digits_in(s: &Vec<char>, lo: usize, hi: usize) -> (r: bool)
    requires
        lo <= hi <= s@.len(),
    ensures
        r == is_digits(s@.subrange(lo as int, hi as int)),
{
    if lo == hi {
        return false;
    }
    let mut i = lo;
    while i < hi
        invariant
            lo <= i <= hi <= s@.len(),
            forall|j: int| lo <= j < i ==> is_digit(#[trigger] s@[j]),
        decreases hi - i,
    {
        if !digit(s[i]) {
            assert(s@.subrange(lo as int, hi as int)[i - lo] == s@[i as int]);
            return false;
        }
        i = i + 1;
    }
    assert forall|j: int| 0 <= j < s@.subrange(lo as int, hi as int).len() implies is_digit(
        #[trigger] s@.subrange(lo as int, hi as int)[j],
    ) by {
        assert(s@.subrange(lo as int, hi as int)[j] == s@[lo + j]);
    }
    true
}

/// Whether `s[lo..hi]` is a mantissa: digits and at most one `.`, with a digit.
fn mantissa_in(s: &Vec<char>, lo: usize, hi: usize) -> (r: bool)
    requires
        lo <= hi <= s@.len(),
    ensures
        r == is_mantissa(s@.subrange(lo as int, hi as int)),
{
    let ghost m = s@.subrange(lo as int, hi as int);
    let mut dots: usize = 0;
    let ghost mut dot_at: int = 0;
    let mut seen_digit = false;
    let mut i = lo;
    while i < hi
        invariant
            lo <= i <= hi <= s@.len(),
            m == s@.subrange(lo as int, hi as int),
            forall|j: int| lo <= j < i ==> is_digit(#[trigger] s@[j]) || s@[j] == '.',
            dots <= 1,
            dots == 0 ==> forall|j: int| lo <= j < i ==> #[trigger] s@[j] != '.',
            dots == 1 ==> lo <= dot_at < i && s@[dot_at] == '.' && forall|j: int|
                lo <= j < i && j != dot_at ==> #[trigger] s@[j] != '.',
            seen_digit == exists|j: int| lo <= j < i && is_digit(#[trigger] s@[j]),
        decreases hi - i,
    {
        let c = s[i];
        if c == '.' {
            if dots == 1 {
                proof {
                    assert(m[dot_at - lo] == '.');
                    assert(m[i - lo] == '.');
                }
                return false;
            }
            dots = 1;
            proof {
                dot_at = i as int;
            }
        } else if digit(c) {
            seen_digit = true;
        } else {
            assert(m[i - lo] == c);
            return false;
        }
        i = i + 1;
    }
    if !seen_digit {
        proof {
            assert forall|j: int| 0 <= j < m.len() implies !is_digit(#[trigger] m[j]) by {
                assert(m[j] == s@[lo + j]);
            }
        }
        return false;
    }
    proof {
        assert forall|j: int| 0 <= j < m.len() implies is_digit(#[trigger] m[j]) || m[j] == '.' by {
            assert(m[j] == s@[lo + j]);
        }
        assert forall|j1: int, j2: int|
            #![trigger m[j1], m[j2]]
            0 <= j1 < m.len() && 0 <= j2 < m.len() && m[j1] == '.' && m[j2] == '.' implies j1
            == j2 by {
            assert(m[j1] == s@[lo + j1]);
            assert(m[j2] == s@[lo + j2]);
        }
        let jd = choose|j: int| lo <= j < hi && is_digit(#[trigger] s@[j]);
        assert(m[jd - lo] == s@[jd]);
    }
    true
}

/// Index of the first `e` or `E` at or after `lo`, or the length.
fn exponent_index(s: &Vec<char>, lo: usize) -> (e: usize)
    requires
        lo <= s@.len(),
    ensures
        lo <= e <= s@.len(),
        exponent_start(s@.skip(lo as int)) == e - lo,
{
    let n = s.len();
    let mut e = lo;
    while e < n && s[e] != 'e' && s[e] != 'E'
        invariant
            lo <= e <= n == s@.len(),
            forall|j: int| lo <= j < e ==> #[trigger] s@[j] != 'e' && s@[j] != 'E',
        decreases n - e,
    {
        e = e + 1;
    }
    proof {
        let b = s@.skip(lo as int);
        assert forall|j: int| 0 <= j < e - lo implies #[trigger] b[j] != 'e' && b[j] != 'E' by {
            assert(b[j] == s@[lo + j]);
        }
        if e < n {
            assert(b[e - lo] == s@[e as int]);
        }
        lemma_exponent_start(b, e - lo);
    }
    e
}

/// Whether `s[e..]` is empty or an exponent `('e' | 'E') Sign? Digit+`.
fn exponent_in(s: &Vec<char>, e: usize) -> (r: bool)
    requires
        e <= s@.len(),
    ensures
        r == is_exponent(s@.skip(e as int)),
{
    let n = s.len();
    let ghost x = s@.skip(e as int);
    if e == n {
        return true;
    }
    assert(x[0] == s@[e as int]);
    if s[e] != 'e' && s[e] != 'E' {
        return false;
    }
    let mut d = e + 1;
    if d < n && (s[d] == '+' || s[d] == '-') {
        d = d + 1;
    }
    assert(unsigned_part(x.drop_first()) =~= s@.subrange(d as int, n as int));
    digits_in(s, d, n)
}

/// Whether `str::parse::<f64>` would accept the characters `s`.
pub fn float_literal(s: &Vec<char>) -> (r: bool)
    ensures
        r == is_float_literal(s@),
{
    let n = s.len();
    let start: usize = if n > 0 && (s[0] == '+' || s[0] == '-') {
        1
    } else {
        0
    };
    let ghost b = unsigned_part(s@);
    assert(b =~= s@.skip(start as int));
    if spells_word_ignoring_case(s, start, "inf", "INF") {
        return true;
    }
    if spells_word_ignoring_case(s, start, "infinity", "INFINITY") {
        return true;
    }
    if spells_word_ignoring_case(s, start, "nan", "NAN") {
        return true;
    }
    let e = exponent_index(s, start);
    assert(b.take(e - start) =~= s@.subrange(start as int, e as int));
    assert(b.skip(e - start) =~= s@.skip(e as int));
    mantissa_in(s, start, e) && exponent_in(s, e)
}

/// Whether the value `suffix` after the ambiguous prefix `prefix` is a size,
/// width or keyword rather than a colour; a bare prefix counts as its default.
pub fn is_numeric_or_keyword_value(prefix: &str, suffix: &str) -> (r: bool)
    ensures
        r == numeric_or_keyword(prefix@, suffix@),
{
    let prefix = chars_of(prefix);
    let suffix = chars_of(suffix);
    let prefix = &prefix;
    let suffix = &suffix;
    if suffix.len() == 0 {
        return true;
    }
    if suffix[0] == '[' {
        let n = suffix.len();
        let mut lo: usize = 0;
        assert(suffix@.skip(0) =~= suffix@);
        while lo < n && suffix[lo] == '['
            invariant
                lo <= n == suffix@.len(),
                leading_run(suffix@, '[') == lo + leading_run(suffix@.skip(lo as int), '['),
            decreases n - lo,
        {
            assert(suffix@.skip(lo as int).drop_first() =~= suffix@.skip(lo + 1));
            lo = lo + 1;
        }
        let ghost t = suffix@.skip(lo as int);
        assert(suffix@.subrange(lo as int, n as int) =~= t);
        let mut hi: usize = n;
        while hi > lo && suffix[hi - 1] == ']'
            invariant
                lo <= hi <= n == suffix@.len(),
                t == suffix@.skip(lo as int),
                trailing_run(t, ']') == (n - hi) + trailing_run(
                    suffix@.subrange(lo as int, hi as int),
                    ']',
                ),
            decreases hi,
        {
            assert(suffix@.subrange(lo as int, hi as int).drop_last() =~= suffix@.subrange(
                lo as int,
                hi - 1,
            ));
            hi = hi - 1;
        }
        assert(bracket_inner(suffix@) =~= suffix@.subrange(lo as int, hi as int));
        let inner = crate::text::copy_range(suffix, lo, hi);
        return (inner.len() > 0 && (digit(inner[0]) || inner[0] == '.' || inner[0] == '-'))
            || has_prefix(&inner, "calc(") || has_prefix(&inner, "var(") || has_suffix(
            &inner,
            "px",
        ) || has_suffix(&inner, "rem") || has_suffix(&inner, "em") || has_suffix(&inner, "%");
    }
    if is_word(prefix, "border") {
        float_literal(suffix)
    } else if is_word(prefix, "ring") || is_word(prefix, "inset-ring") {
        float_literal(suffix) || is_word(suffix, "inset")
    } else if is_word(prefix, "shadow") || is_word(prefix, "inset-shadow") {
        is_word(suffix, "sm") || is_word(suffix, "md") || is_word(suffix, "lg") || is_word(
            suffix,
            "xl",
        ) || is_word(suffix, "2xl") || is_word(suffix, "none") || is_word(suffix, "inner")
            || is_word(suffix, "initial")
    } else if is_word(prefix, "divide") {
        is_word(suffix, "x") || is_word(suffix, "y") || is_word(suffix, "solid") || is_word(
            suffix,
            "dashed",
        ) || is_word(suffix, "dotted") || is_word(suffix, "double") || is_word(suffix, "none")
    } else {
        false
    }
}

/// A nonempty word of lowercase ASCII letters.
pub open spec fn is_lowercase_word(w: Seq<char>) -> bool {
    w.len() > 0 && forall|i: int| 0 <= i < w.len() ==> 'a' <= #[trigger] w[i] && w[i] <= 'z'
}

/// The shadow sizes `sm`, `md`, `lg`, `xl`, `2xl`, `none`, `inner` and
/// `initial` are sizes, not colours, after `shadow` and `inset-shadow`.
pub proof fn shadow_sizes_are_sizes(p: Seq<char>, w: Seq<char>)
    requires
        p == "shadow"@ || p == "inset-shadow"@,
        w == "sm"@ || w == "md"@ || w == "lg"@ || w == "xl"@ || w == "2xl"@ || w == "none"@
            || w == "inner"@ || w == "initial"@,
    ensures
        numeric_or_keyword(p, w),
{
    reveal_strlit("shadow");
    reveal_strlit("inset-shadow");
    reveal_strlit("border");
    reveal_strlit("ring");
    reveal_strlit("inset-ring");
    reveal_strlit("sm");
    reveal_strlit("md");
    reveal_strlit("lg");
    reveal_strlit("xl");
    reveal_strlit("2xl");
    reveal_strlit("none");
    reveal_strlit("inner");
    reveal_strlit("initial");
    assert(w.len() > 0 && w[0] != '[');
    assert("shadow"@[0] != "border"@[0]);
    assert("inset-shadow"@.len() != "border"@.len());
    assert("shadow"@.len() != "ring"@.len() && "inset-shadow"@.len() != "ring"@.len());
    assert("shadow"@.len() != "inset-ring"@.len() && "inset-shadow"@.len() != "inset-ring"@.len());
    assert(p != "border"@ && p != "ring"@ && p != "inset-ring"@);
}

/// After `shadow` and `inset-shadow`, any other plain value is a colour.
pub proof fn shadow_other_values_are_colours(p: Seq<char>, w: Seq<char>)
    requires
        p == "shadow"@ || p == "inset-shadow"@,
        w.len() > 0,
        w[0] != '[',
        !(w == "sm"@ || w == "md"@ || w == "lg"@ || w == "xl"@ || w == "2xl"@ || w == "none"@
            || w == "inner"@ || w == "initial"@),
    ensures
        !numeric_or_keyword(p, w),
{
    reveal_strlit("shadow");
    reveal_strlit("inset-shadow");
    reveal_strlit("border");
    reveal_strlit("ring");
    reveal_strlit("inset-ring");
    assert("shadow"@[0] != "border"@[0]);
    assert("inset-shadow"@.len() != "border"@.len());
    assert("shadow"@.len() != "ring"@.len() && "inset-shadow"@.len() != "ring"@.len());
    assert("shadow"@.len() != "inset-ring"@.len() && "inset-shadow"@.len() != "inset-ring"@.len());
    assert(p != "border"@ && p != "ring"@ && p != "inset-ring"@);
}

/// A lowercase word other than `inf`, `infinity` and `nan` (which
/// `str::parse::<f64>` accepts) is no number.
proof fn lemma_word_not_float(w: Seq<char>)
    requires
        is_lowercase_word(w),
        w != "inf"@,
        w != "infinity"@,
        w != "nan"@,
    ensures
        !is_float_literal(w),
{
    reveal_strlit("inf");
    reveal_strlit("INF");
    reveal_strlit("infinity");
    reveal_strlit("INFINITY");
    reveal_strlit("nan");
    reveal_strlit("NAN");
    assert(unsigned_part(w) == w);
    if spells_ignoring_case(w, "inf"@, "INF"@) {
        assert(w =~= "inf"@);
    }
    if spells_ignoring_case(w, "infinity"@, "INFINITY"@) {
        assert(w =~= "infinity"@);
    }
    if spells_ignoring_case(w, "nan"@, "NAN"@) {
        assert(w =~= "nan"@);
    }
    let m = w.take(exponent_start(w) as int);
    if is_mantissa(m) {
        let i = choose|i: int| 0 <= i < m.len() && is_digit(#[trigger] m[i]);
        lemma_exponent_start_bound(w);
        assert(m[i] == w[i]);
    }
}

proof fn lemma_exponent_start_bound(s: Seq<char>)
    ensures
        exponent_start(s) <= s.len(),
    decreases s.len(),
{
    if s.len() > 0 {
        lemma_exponent_start_bound(s.drop_first());
    }
}

/// After `border`, `ring` and `inset-ring`, a colour name (a lowercase word
/// such as `white` or `transparent`) is a colour, not a width; only the
/// words that read as numbers (`inf`, `infinity`, `nan`), and `inset` after a
/// ring, are not.
pub proof fn colour_words_are_colours(p: Seq<char>, w: Seq<char>)
    requires
        p == "border"@ || p == "ring"@ || p == "inset-ring"@,
        is_lowercase_word(w),
        w != "inf"@,
        w != "infinity"@,
        w != "nan"@,
        w != "inset"@,
    ensures
        !numeric_or_keyword(p, w),
{
    lemma_word_not_float(w);
    assert('a' <= w[0] && w[0] <= 'z');
}

/// After `border`, `ring` and `inset-ring`, a run of digits is a width.
pub proof fn digit_values_are_widths(p: Seq<char>, w: Seq<char>)
    requires
        p == "border"@ || p == "ring"@ || p == "inset-ring"@,
        is_digits(w),
    ensures
        numeric_or_keyword(p, w),
{
    assert(is_digit(w[0]));
    assert(unsigned_part(w) == w);
    lemma_exponent_start(w, w.len() as int);
    assert(w.take(w.len() as int) =~= w);
    assert(w.skip(w.len() as int) =~= Seq::<char>::empty());
    assert(is_digit(w[0]));
    assert(is_mantissa(w));
}

} // verus!

//! Variant prefixes such as `hover:` and `md:`, and the base utility behind them.
use vstd::prelude::*;
use crate::text::chars_of;

verus! {

/// The bracket nesting depth after reading `s`: `[` opens, `]` closes
/// (never below zero).
pub open spec fn bracket_depth(s: Seq<char>) -> nat
    decreases s.len(),
{
    if s.len() == 0 {
        0
    } else {
        let d = bracket_depth(s.drop_last());
        if s.last() == '[' {
            d + 1
        } else if s.last() == ']' {
            if d > 0 {
                (d - 1) as nat
            } else {
                0
            }
        } else {
            d
        }
    }
}

/// `s[i]` is a `:` outside brackets, so it ends a variant prefix.
pub open spec fn is_variant_colon(s: Seq<char>, i: int) -> bool {
    s[i] == ':' && bracket_depth(s.take(i)) == 0
}

/// Number of variant prefixes of a class.
pub open spec fn variant_count(s: Seq<char>) -> nat
    decreases s.len(),
{
    if s.len() == 0 {
        0
    } else {
        variant_count(s.drop_last()) + if is_variant_colon(s, s.len() - 1) {
            1nat
        } else {
            0nat
        }
    }
}

/// Where the base utility starts: just after the last variant colon, or 0.
pub open spec fn base_start(s: Seq<char>) -> nat
    decreases s.len(),
{
    if s.len() == 0 {
        0
    } else if is_variant_colon(s, s.len() - 1) {
        s.len()
    } else {
        base_start(s.drop_last())
    }
}

/// The base utility of a class: what follows its last variant colon.
pub open spec fn base_of(s: Seq<char>) -> Seq<char> {
    s.skip(base_start(s) as int)
}

proof fn lemma_base_start_bound(s: Seq<char>)
    ensures
        base_start(s) <= s.len(),
        variant_count(s) <= s.len(),
        variant_count(s) == 0 ==> base_start(s) == 0,
    decreases s.len(),
{
    if s.len() > 0 {
        lemma_base_start_bound(s.drop_last());
    }
}

/// Split a class into its number of variant prefixes and its base utility.
///
/// Variants are separated by `:`; a `:` inside brackets (an arbitrary variant
/// such as `[&>svg]:`) separates nothing. The base is what follows the last
/// separating colon, or the whole class when there is none.
pub fn strip_variants(class: &str) -> (r: (usize, &str))
    ensures
        r.0 == variant_count(class@),
        r.1@ == base_of(class@),
{
    let chars = chars_of(class);
    let n = chars.len();
    let mut variant_count_so_far: usize = 0;
    let mut last_colon_end: usize = 0;
    let mut bracket_depth_so_far: usize = 0;
    let mut i: usize = 0;
    while i < n
        invariant
            n == chars@.len() == class@.len(),
            chars@ == class@,
            i <= n,
            bracket_depth_so_far == bracket_depth(chars@.take(i as int)),
            variant_count_so_far == variant_count(chars@.take(i as int)),
            last_colon_end == base_start(chars@.take(i as int)),
            bracket_depth_so_far <= i,
            variant_count_so_far <= i,
        decreases n - i,
    {
        let ghost before = chars@.take(i as int);
        let ghost after = chars@.take(i + 1);
        assert(after.drop_last() =~= before);
        assert(after.take(i as int) =~= before);
        let ch = chars[i];
        if ch == '[' {
            bracket_depth_so_far = bracket_depth_so_far + 1;
        } else if ch == ']' {
            if bracket_depth_so_far > 0 {
                bracket_depth_so_far = bracket_depth_so_far - 1;
            }
        } else if ch == ':' && bracket_depth_so_far == 0 {
            variant_count_so_far = variant_count_so_far + 1;
            last_colon_end = i + 1;
        }
        i = i + 1;
    }
    assert(chars@.take(n as int) =~= chars@);
    proof {
        lemma_base_start_bound(chars@);
    }
    (variant_count_so_far, class.substring_char(last_colon_end, n))
}

proof fn lemma_depth_after_closed(a: Seq<char>, b: Seq<char>)
    requires
        bracket_depth(a) == 0,
    ensures
        bracket_depth(a + b) == bracket_depth(b),
    decreases b.len(),
{
    if b.len() == 0 {
        assert(a + b =~= a);
    } else {
        lemma_depth_after_closed(a, b.drop_last());
        assert((a + b).drop_last() =~= a + b.drop_last());
        assert((a + b).last() == b.last());
    }
}

proof fn lemma_variants_after_closed(a: Seq<char>, c: Seq<char>)
    requires
        bracket_depth(a) == 0,
    ensures
        variant_count(a + c) == variant_count(a) + variant_count(c),
        base_start(a + c) == if variant_count(c) > 0 {
            a.len() + base_start(c)
        } else {
            base_start(a)
        },
    decreases c.len(),
{
    if c.len() == 0 {
        assert(a + c =~= a);
    } else {
        let ac = a + c;
        lemma_variants_after_closed(a, c.drop_last());
        assert(ac.drop_last() =~= a + c.drop_last());
        assert(ac[ac.len() - 1] == c[c.len() - 1]);
        assert(ac.take(ac.len() - 1) =~= a + c.take(c.len() - 1));
        lemma_depth_after_closed(a, c.take(c.len() - 1));
        assert(is_variant_colon(ac, ac.len() - 1) == is_variant_colon(c, c.len() - 1));
        lemma_base_start_bound(c.drop_last());
    }
}

proof fn lemma_plain_prefix(v: Seq<char>)
    requires
        forall|i: int| 0 <= i < v.len() ==> #[trigger] v[i] != '[' && v[i] != ']' && v[i] != ':',
    ensures
        bracket_depth(v) == 0,
        variant_count(v) == 0,
        base_start(v) == 0,
    decreases v.len(),
{
    if v.len() > 0 {
        assert forall|i: int| 0 <= i < v.drop_last().len() implies #[trigger] v.drop_last()[i]
            != '[' && v.drop_last()[i] != ']' && v.drop_last()[i] != ':' by {
            assert(v.drop_last()[i] == v[i]);
        }
        lemma_plain_prefix(v.drop_last());
        assert(v.last() == v[v.len() - 1]);
    }
}

/// Putting one more variant `v:` (no brackets or colons in `v`) in front of a
/// class adds one to its variant count and leaves its base utility as it was.
pub proof fn one_more_variant(v: Seq<char>, c: Seq<char>)
    requires
        forall|i: int| 0 <= i < v.len() ==> #[trigger] v[i] != '[' && v[i] != ']' && v[i] != ':',
    ensures
        variant_count(v + seq![':'] + c) == variant_count(c) + 1,
        base_of(v + seq![':'] + c) == base_of(c),
{
    let a = v + seq![':'];
    lemma_plain_prefix(v);
    assert(a.drop_last() =~= v);
    assert(a.take(a.len() - 1) =~= v);
    assert(is_variant_colon(a, a.len() - 1));
    assert(variant_count(a) == 1);
    assert(base_start(a) == a.len());
    assert(bracket_depth(a) == 0);
    lemma_variants_after_closed(a, c);
    lemma_base_start_bound(c);
    assert(v + seq![':'] + c =~= a + c);
    assert((a + c).skip(base_start(a + c) as int) =~= c.skip(base_start(c) as int));
}

/// How many times `c` occurs in `s`.
pub open spec fn occurrences(s: Seq<char>, c: char) -> nat
    decreases s.len(),
{
    if s.len() == 0 {
        0
    } else {
        occurrences(s.drop_last(), c) + if s.last() == c {
            1nat
        } else {
            0nat
        }
    }
}

/// `[` and `]` are balanced in `x`: as many of each, and no `]` without an
/// earlier `[` to close.
pub open spec fn brackets_balanced(x: Seq<char>) -> bool {
    &&& forall|k: int|
        0 <= k <= x.len() ==> occurrences(#[trigger] x.take(k), ']') <= occurrences(
            x.take(k),
            '[',
        )
    &&& occurrences(x, '[') == occurrences(x, ']')
}

proof fn lemma_occurrences_prepend(h: char, z: Seq<char>, c: char)
    ensures
        occurrences(seq![h] + z, c) == occurrences(z, c) + if h == c {
            1nat
        } else {
            0nat
        },
    decreases z.len(),
{
    if z.len() == 0 {
        assert(seq![h] + z =~= seq![h]);
        assert(seq![h].drop_last() =~= Seq::<char>::empty());
        assert(occurrences(Seq::<char>::empty(), c) == 0);
        assert(occurrences(z, c) == 0);
    } else {
        lemma_occurrences_prepend(h, z.drop_last(), c);
        assert((seq![h] + z).drop_last() =~= seq![h] + z.drop_last());
        assert((seq![h] + z).last() == z.last());
    }
}

/// When no prefix of `s` closes more brackets than it opened, the depth is
/// the number of `[` less the number of `]`.
pub proof fn bracket_depth_counts(s: Seq<char>)
    requires
        forall|k: int|
            0 <= k <= s.len() ==> occurrences(#[trigger] s.take(k), ']') <= occurrences(
                s.take(k),
                '[',
            ),
    ensures
        bracket_depth(s) == occurrences(s, '[') - occurrences(s, ']'),
    decreases s.len(),
{
    if s.len() > 0 {
        let t = s.drop_last();
        assert forall|k: int| 0 <= k <= t.len() implies occurrences(#[trigger] t.take(k), ']')
            <= occurrences(t.take(k), '[') by {
            assert(t.take(k) =~= s.take(k));
        }
        bracket_depth_counts(t);
        assert(s.take(s.len() as int) =~= s);
    }
}

/// Inside `[` + `x` (balanced `x`), every prefix after the first character
/// is nested at least once.
proof fn lemma_open_prefix_depth(x: Seq<char>, j: int)
    requires
        brackets_balanced(x),
        0 <= j <= x.len(),
    ensures
        bracket_depth(seq!['['] + x.take(j)) >= 1,
{
    let y = seq!['['] + x.take(j);
    assert forall|k: int| 0 <= k <= y.len() implies occurrences(#[trigger] y.take(k), ']')
        <= occurrences(y.take(k), '[') by {
        if k > 0 {
            assert(y.take(k) =~= seq!['['] + x.take(k - 1));
            assert(x.take(j).take(k - 1) =~= x.take(k - 1));
            lemma_occurrences_prepend('[', x.take(k - 1), ']');
            lemma_occurrences_prepend('[', x.take(k - 1), '[');
        } else {
            assert(y.take(0) =~= Seq::<char>::empty());
        }
    }
    bracket_depth_counts(y);
    lemma_occurrences_prepend('[', x.take(j), ']');
    lemma_occurrences_prepend('[', x.take(j), '[');
}

/// A bracketed variant `[x]` (balanced `x`) has no variant colon, and closes
/// every bracket it opens.
proof fn lemma_bracketed_closed(x: Seq<char>, k: int)
    requires
        brackets_balanced(x),
        0 <= k <= x.len() + 2,
    ensures
        variant_count((seq!['['] + x + seq![']']).take(k)) == 0,
        base_start((seq!['['] + x + seq![']']).take(k)) == 0,
    decreases k,
{
    let p = seq!['['] + x + seq![']'];
    if k > 0 {
        lemma_bracketed_closed(x, k - 1);
        let q = p.take(k);
        assert(q.drop_last() =~= p.take(k - 1));
        assert(q.take(k - 1) =~= p.take(k - 1));
        if k - 1 == 0 {
            assert(q[0] == '[');
        } else if k - 1 <= x.len() {
            assert(p.take(k - 1) =~= seq!['['] + x.take(k - 2));
            lemma_open_prefix_depth(x, k - 2);
        } else {
            assert(q[k - 1] == ']');
        }
        assert(!is_variant_colon(q, k - 1));
    } else {
        assert(p.take(0) =~= Seq::<char>::empty());
    }
}

proof fn lemma_bracketed_depth(x: Seq<char>)
    requires
        brackets_balanced(x),
    ensures
        bracket_depth(seq!['['] + x + seq![']']) == 0,
{
    let p = seq!['['] + x + seq![']'];
    let y = seq!['['] + x;
    lemma_open_prefix_depth(x, x.len() as int);
    assert(x.take(x.len() as int) =~= x);
    assert(p.drop_last() =~= y);
    lemma_depth_counts_upto(x);
}

proof fn lemma_depth_counts_upto(x: Seq<char>)
    requires
        brackets_balanced(x),
    ensures
        bracket_depth(seq!['['] + x) == 1,
{
    let y = seq!['['] + x;
    assert forall|k: int| 0 <= k <= y.len() implies occurrences(#[trigger] y.take(k), ']')
        <= occurrences(y.take(k), '[') by {
        if k > 0 {
            assert(y.take(k) =~= seq!['['] + x.take(k - 1));
            lemma_occurrences_prepend('[', x.take(k - 1), ']');
            lemma_occurrences_prepend('[', x.take(k - 1), '[');
        } else {
            assert(y.take(0) =~= Seq::<char>::empty());
        }
    }
    bracket_depth_counts(y);
    lemma_occurrences_prepend('[', x, ']');
    lemma_occurrences_prepend('[', x, '[');
    assert(x.take(x.len() as int) =~= x);
}

/// After a closed prefix `a` that ends a variant, the variants and base of
/// `a + c` are one more than those of `c`, and the base of `c`.
proof fn lemma_after_variant(a: Seq<char>, c: Seq<char>)
    requires
        bracket_depth(a) == 0,
        variant_count(a) == 1,
        base_start(a) == a.len(),
    ensures
        variant_count(a + c) == variant_count(c) + 1,
        base_of(a + c) == base_of(c),
{
    lemma_variants_after_closed(a, c);
    lemma_base_start_bound(c);
    lemma_no_variant_base(c);
    assert((a + c).skip(base_start(a + c) as int) =~= c.skip(base_start(c) as int));
}

proof fn lemma_no_variant_base(c: Seq<char>)
    ensures
        variant_count(c) == 0 ==> base_start(c) == 0,
    decreases c.len(),
{
    if c.len() > 0 {
        lemma_no_variant_base(c.drop_last());
    }
}

/// Brackets nest: an arbitrary variant `[x]:` whose brackets balance, colons
/// inside included, counts as one variant in front of any class and leaves
/// its base utility as it was.
pub proof fn bracketed_variant(x: Seq<char>, c: Seq<char>)
    requires
        brackets_balanced(x),
    ensures
        variant_count(seq!['['] + x + seq![']', ':'] + c) == variant_count(c) + 1,
        base_of(seq!['['] + x + seq![']', ':'] + c) == base_of(c),
{
    let p = seq!['['] + x + seq![']'];
    let a = p + seq![':'];
    lemma_bracketed_closed(x, p.len() as int);
    assert(p.take(p.len() as int) =~= p);
    lemma_bracketed_depth(x);
    assert(a.drop_last() =~= p);
    assert(a.take(a.len() - 1) =~= p);
    assert(is_variant_colon(a, a.len() - 1));
    assert(variant_count(a) == 1);
    assert(base_start(a) == a.len());
    assert(bracket_depth(a) == 0);
    lemma_after_variant(a, c);
    assert(seq!['['] + x + seq![']', ':'] + c =~= a + c);
}

/// A `]` with no `[` open before it is ignored: it never takes the depth
/// below zero.
pub proof fn unmatched_close_ignored(s: Seq<char>)
    ensures
        bracket_depth(seq![']'] + s) == bracket_depth(s),
    decreases s.len(),
{
    if s.len() == 0 {
        assert(seq![']'] + s =~= seq![']']);
        assert(seq![']'].drop_last() =~= Seq::<char>::empty());
        assert(bracket_depth(Seq::<char>::empty()) == 0);
        assert(seq![']'].last() == ']');
    } else {
        unmatched_close_ignored(s.drop_last());
        assert((seq![']'] + s).drop_last() =~= seq![']'] + s.drop_last());
        assert((seq![']'] + s).last() == s.last());
    }
}

} // verus!

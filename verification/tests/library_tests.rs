use std::cmp::Ordering;
use tailwind_sorter::{
    compare_classes, is_numeric_or_keyword_value, lookup_sort_key, remove_duplicates,
    strip_variants, ClassSortKey, ClassSorter, SortOptions,
};

fn sort(input: &str) -> String {
    ClassSorter::new(SortOptions::default()).sort_class_string(input.to_string())
}

fn sort_with(input: &str, preserve_duplicates: bool, preserve_whitespace: bool) -> String {
    ClassSorter::new(SortOptions { preserve_duplicates, preserve_whitespace })
        .sort_class_string(input.to_string())
}

fn key(class: &str) -> (Vec<usize>, usize) {
    let k = lookup_sort_key(class).unwrap();
    (k.order, k.count)
}

// --- strip_variants ---

#[test]
fn strip_variants_colon_inside_brackets() {
    assert_eq!(strip_variants("[a:b]:c"), (1, "c"));
    assert_eq!(strip_variants("a[:b"), (0, "a[:b"));
}

#[test]
fn strip_variants_unmatched_close_bracket() {
    // a `]` with no open bracket does not take the depth below zero
    assert_eq!(strip_variants("]]:flex"), (1, "flex"));
}

#[test]
fn strip_variants_trailing_colon() {
    assert_eq!(strip_variants("hover:"), (1, ""));
    assert_eq!(strip_variants(""), (0, ""));
}

// --- lookup_sort_key ---

#[test]
fn lookup_exact_keys() {
    assert_eq!(key("flex"), (vec![35], 1));
    assert_eq!(key("p-4"), (vec![252], 1));
    assert_eq!(key("text-sm"), (vec![265, 266], 2));
    assert_eq!(key("transition"), (vec![328, 331, 332], 3));
}

#[test]
fn lookup_negative_value_uses_prefix() {
    assert_eq!(key("-m-4"), (vec![25], 1));
    assert_eq!(key("-top-1"), (vec![9], 1));
}

#[test]
fn lookup_color_values_take_color_key() {
    assert_eq!(key("border-red-500"), (vec![171], 1));
    assert_eq!(key("ring-blue-500"), (vec![297], 1));
    assert_eq!(key("shadow-red-500"), (vec![295], 1));
    assert_eq!(key("border-[#fff]"), (vec![171], 1));
}

#[test]
fn lookup_size_values_keep_default_key() {
    assert_eq!(key("border-[3px]"), (vec![153], 1));
    assert_eq!(key("border-1.5"), (vec![153], 1));
    assert_eq!(key("ring-4"), (vec![293, 296], 2));
    assert_eq!(key("ring-inset"), (vec![296], 1));
    assert_eq!(key("shadow-md"), (vec![293, 294], 2));
}

#[test]
fn lookup_missing_properties_give_empty_order() {
    assert_eq!(key("select-none"), (vec![], 2));
    assert_eq!(key("outline-none"), (vec![], 1));
}

#[test]
fn lookup_unknown_classes() {
    assert!(lookup_sort_key("").is_none());
    assert!(lookup_sort_key("-").is_none());
    assert!(lookup_sort_key("zzz").is_none());
}

// --- is_numeric_or_keyword_value ---

#[test]
fn numeric_values_follow_float_parsing() {
    let samples = [
        "0", "1", "1.5", ".5", "5.", ".", "1e3", "1E-3", "1e", "e3", "+1", "-2.5", "+-1", "inf",
        "INF", "Infinity", "-infinity", "nan", "NaN", "infx", "1.2.3", "12px", "0x10", "1_000",
        " 1", "1e+5", "1e+", "..1", "1.e5", ".5e-3", "-.5", "+.", "inF", "infinitY", "infinit", "-nan",
        "1e5.0", "e", "+",
    ];
    for s in samples {
        assert_eq!(
            is_numeric_or_keyword_value("border", s),
            s.parse::<f64>().is_ok(),
            "suffix {s:?}"
        );
    }
}

#[test]
fn keyword_values_by_prefix() {
    assert!(is_numeric_or_keyword_value("ring", "inset"));
    assert!(is_numeric_or_keyword_value("inset-ring", "2"));
    assert!(is_numeric_or_keyword_value("shadow", "2xl"));
    assert!(is_numeric_or_keyword_value("inset-shadow", "initial"));
    assert!(!is_numeric_or_keyword_value("shadow", "red-500"));
    assert!(is_numeric_or_keyword_value("divide", "dashed"));
    assert!(!is_numeric_or_keyword_value("divide", "red-500"));
    assert!(!is_numeric_or_keyword_value("text", "sm"));
    assert!(is_numeric_or_keyword_value("text", ""));
}

#[test]
fn arbitrary_values_in_brackets() {
    assert!(is_numeric_or_keyword_value("border", "[3px]"));
    assert!(is_numeric_or_keyword_value("border", "[calc(1px+2px)]"));
    assert!(is_numeric_or_keyword_value("border", "[var(--w)]"));
    assert!(is_numeric_or_keyword_value("border", "[50%]"));
    assert!(is_numeric_or_keyword_value("border", "[[2rem]]"));
    assert!(is_numeric_or_keyword_value("border", "[-1px]"));
    assert!(!is_numeric_or_keyword_value("border", "[#fff]"));
    assert!(!is_numeric_or_keyword_value("border", "["));
}

// --- compare_classes ---

fn class_key(variant_count: usize, order: Option<Vec<usize>>, count: usize, base: &str, index: usize) -> ClassSortKey {
    ClassSortKey {
        variant_count,
        order,
        count,
        base_class: base.chars().collect(),
        original_index: index,
    }
}

#[test]
fn compare_unknown_and_known() {
    let unknown_a = class_key(0, None, 0, "a", 0);
    let unknown_b = class_key(0, None, 0, "b", 1);
    let known = class_key(0, Some(vec![1]), 1, "p-4", 2);
    assert_eq!(compare_classes(&unknown_a, &unknown_b), Ordering::Less);
    assert_eq!(compare_classes(&unknown_b, &unknown_a), Ordering::Greater);
    assert_eq!(compare_classes(&unknown_b, &known), Ordering::Greater);
    assert_eq!(compare_classes(&known, &unknown_a), Ordering::Less);
}

#[test]
fn compare_known_tie_breaks() {
    let a = class_key(0, Some(vec![3, 9]), 2, "x", 0);
    let b = class_key(1, Some(vec![1]), 1, "y", 1);
    assert_eq!(compare_classes(&a, &b), Ordering::Less); // fewer variants first
    let c = class_key(0, Some(vec![3, 7]), 2, "z", 2);
    assert_eq!(compare_classes(&c, &a), Ordering::Less); // first differing position
    let d = class_key(0, Some(vec![3, 9]), 3, "w", 3);
    assert_eq!(compare_classes(&d, &a), Ordering::Less); // more declarations first
    let e = class_key(0, Some(vec![3]), 5, "v", 4);
    assert_eq!(compare_classes(&a, &e), Ordering::Less); // positions that run out first come after
    assert_eq!(compare_classes(&e, &a), Ordering::Greater);
    let h = class_key(0, Some(vec![]), 2, "s", 7);
    assert_eq!(compare_classes(&e, &h), Ordering::Less); // no positions at all: after the rest
    let f = class_key(0, Some(vec![3, 9]), 2, "a", 5);
    assert_eq!(compare_classes(&f, &a), Ordering::Less); // base text
    let g = class_key(0, Some(vec![3, 9]), 2, "x", 6);
    assert_eq!(compare_classes(&g, &a), Ordering::Equal);
}

// --- remove_duplicates ---

#[test]
fn remove_duplicates_keeps_first_occurrences() {
    assert_eq!(remove_duplicates(vec!["b", "a", "b", "c", "a"]), vec!["b", "a", "c"]);
    assert_eq!(remove_duplicates(vec![]), Vec::<&str>::new());
}

// --- sorting ---

#[test]
fn unknown_classes_last_in_original_order() {
    assert_eq!(sort("p-4 foo flex bar"), "flex p-4 foo bar");
    assert_eq!(sort("custom-class flex another-custom p-4"), "flex p-4 custom-class another-custom");
}

#[test]
fn fewer_variants_first() {
    assert_eq!(sort("md:hover:p-4 md:flex p-4"), "p-4 md:flex md:hover:p-4");
}

#[test]
fn equal_keys_keep_input_order() {
    assert_eq!(sort("md:flex lg:flex flex"), "flex md:flex lg:flex");
    assert_eq!(sort("lg:flex md:flex flex"), "flex lg:flex md:flex");
}

#[test]
fn sorting_again_changes_nothing() {
    for input in ["p-4 flex m-2 -mt-1 hover:bg-red-500 foo", "text-sm shadow-lg border rounded"] {
        let once = sort(input);
        assert_eq!(sort(&once), once);
    }
}

#[test]
fn ascii_whitespace_separates_classes() {
    assert_eq!(sort("p-4\tflex\nm-2"), "m-2 flex p-4");
    // a vertical tab is not ASCII whitespace for splitting
    assert_eq!(sort("a\u{0B}b p-4"), "p-4 a\u{0B}b");
}

#[test]
fn unicode_whitespace_is_trimmed() {
    assert_eq!(sort("\u{a0}"), " ");
    assert_eq!(sort_with("\u{a0}p-4 flex\u{3000}", false, true), "flex p-4");
    assert_eq!(sort_with("\tp-4 flex\n", false, true), " flex p-4 ");
    assert_eq!(sort_with(" p-4 flex", false, true), " flex p-4");
}

#[test]
fn whitespace_dropped_without_option() {
    assert_eq!(sort("  p-4   flex  "), "flex p-4");
}

#[test]
fn duplicates_with_variants_are_distinct() {
    assert_eq!(sort("flex hover:flex flex hover:flex"), "flex hover:flex");
    assert_eq!(sort_with("hover:flex flex hover:flex", true, false), "flex hover:flex hover:flex");
}

#[test]
fn classes_without_positions_sort_after_classes_with_some() {
    // select-none has two declarations but no property in the property order;
    // it comes after every class with property positions.
    assert_eq!(sort("select-none shadow-md p-4"), "p-4 shadow-md select-none");
    // Among classes without positions, more declarations come first.
    assert_eq!(sort("outline-none select-none flex"), "flex select-none outline-none");
}

#[test]
fn batch_sort_empty_and_blank() {
    let s = ClassSorter::new(SortOptions::default());
    assert_eq!(s.sort_class_attributes(vec![]), Vec::<String>::new());
    assert_eq!(
        s.sort_class_attributes(vec!["".to_string(), " \t".to_string(), "p-4 flex".to_string()]),
        vec!["".to_string(), " ".to_string(), "flex p-4".to_string()]
    );
}

// --- laws on concrete values ---

#[test]
fn negative_value_has_positive_key() {
    for class in ["m-4", "mt-2", "translate-x-1", "z-10", "inset-0"] {
        let negative = format!("-{}", class);
        let pos = lookup_sort_key(class).map(|k| (k.order, k.count));
        let neg = lookup_sort_key(&negative).map(|k| (k.order, k.count));
        assert_eq!(pos, neg, "{class}");
        assert!(pos.is_some(), "{class}");
    }
    assert!(lookup_sort_key("-zzz-unknown").is_none());
}

#[test]
fn one_more_variant_prefix() {
    let (n, base) = strip_variants("hover:flex");
    assert_eq!(strip_variants("md:hover:flex"), (n + 1, base));
    let (n, base) = strip_variants("[&>*]:p-4");
    assert_eq!(strip_variants("dark:[&>*]:p-4"), (n + 1, base));
}

#[test]
fn input_order_does_not_matter() {
    let a = sort("p-4 flex hover:bg-red-500 text-sm");
    let b = sort("text-sm hover:bg-red-500 p-4 flex");
    let c = sort("hover:bg-red-500 text-sm flex p-4");
    assert_eq!(a, b);
    assert_eq!(b, c);
    assert_eq!(a, "flex p-4 text-sm hover:bg-red-500");
}

#[test]
fn sorting_twice_is_sorting_once() {
    for input in [
        "select-none shadow-md p-4",
        "zzz flex aaa p-4 transition",
        "  m-2 hover:m-1 m-2 -m-3  ",
    ] {
        let once = sort(input);
        assert_eq!(sort(&once), once, "{input}");
        let once = sort_with(input, true, true);
        assert_eq!(sort_with(&once, true, true), once, "{input}");
    }
}

#[test]
fn order_of_classes_without_positions_is_fixed() {
    // Every order of p-4, transition and select-none sorts the same way.
    let words = ["p-4", "transition", "select-none"];
    for a in 0..3 {
        for b in 0..3 {
            for c in 0..3 {
                if a != b && b != c && a != c {
                    let input = format!("{} {} {}", words[a], words[b], words[c]);
                    assert_eq!(sort(&input), "p-4 transition select-none", "{input}");
                }
            }
        }
    }
}

#[test]
fn cloned_sorter_sorts_alike() {
    let sorter = ClassSorter::new(SortOptions { preserve_duplicates: true, preserve_whitespace: true });
    let copy = sorter.clone();
    assert_eq!(copy.options.preserve_duplicates, true);
    assert_eq!(copy.options.preserve_whitespace, true);
    let input = " p-4 flex p-4 ".to_string();
    assert_eq!(copy.sort_class_string(input.clone()), sorter.sort_class_string(input));
}

#[test]
fn sorter_from_struct_literal() {
    let sorter = ClassSorter { options: SortOptions { preserve_duplicates: false, preserve_whitespace: false } };
    assert_eq!(sorter.sort_class_string("p-4 flex p-4".to_string()), "flex p-4");
}

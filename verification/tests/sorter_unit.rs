use tailwind_sorter::{lookup_sort_key, strip_variants, ClassSorter, SortOptions};

fn sorter() -> ClassSorter {
    ClassSorter::new(SortOptions::default())
}

// --- Core sorting ---

#[test]
fn sorts_flex_before_padding() {
    // flex → display (idx ~35), p-4 → padding (idx ~252)
    let s = sorter();
    assert_eq!(s.sort_class_string("p-4 flex".to_string()), "flex p-4");
}

#[test]
fn sorts_display_before_flex_property() {
    // flex (display) before flex-1 prefix strips to flex → display
    // but flex-auto is a different entry mapping to CSS flex property
    let s = sorter();
    let result = s.sort_class_string("flex-auto flex".to_string());
    assert_eq!(result, "flex flex-auto");
}

#[test]
fn already_sorted_unchanged() {
    let s = sorter();
    assert_eq!(s.sort_class_string("flex p-4".to_string()), "flex p-4");
}

#[test]
fn sorter_removes_duplicates_by_default() {
    let s = sorter();
    assert_eq!(s.sort_class_string("flex p-4 flex".to_string()), "flex p-4");
}

#[test]
fn sorter_preserves_duplicates_when_option_set() {
    let s = ClassSorter::new(SortOptions { preserve_duplicates: true, ..Default::default() });
    assert_eq!(s.sort_class_string("flex p-4 flex p-4".to_string()), "flex flex p-4 p-4");
}

#[test]
fn sorter_preserves_whitespace_when_option_set() {
    let s = ClassSorter::new(SortOptions { preserve_whitespace: true, ..Default::default() });
    assert_eq!(s.sort_class_string("  p-4 flex  ".to_string()), " flex p-4 ");
}

#[test]
fn whitespace_only_normalizes_to_single_space() {
    let s = sorter();
    assert_eq!(s.sort_class_string("   ".to_string()), " ");
}

#[test]
fn empty_string_unchanged() {
    let s = sorter();
    assert_eq!(s.sort_class_string("".to_string()), "");
}

#[test]
fn single_class_unchanged() {
    let s = sorter();
    assert_eq!(s.sort_class_string("flex".to_string()), "flex");
}

// --- Property order tests (verifying category ordering) ---

#[test]
fn position_before_margin() {
    // position (idx 3) before margin (idx ~25)
    let s = sorter();
    assert_eq!(
        s.sort_class_string("m-4 absolute".to_string()),
        "absolute m-4"
    );
}

#[test]
fn sorter_margin_before_display() {
    // margin (idx ~25) before display (idx ~35)
    let s = sorter();
    assert_eq!(
        s.sort_class_string("flex m-4".to_string()),
        "m-4 flex"
    );
}

#[test]
fn display_before_width() {
    // display (idx ~35) before width (idx ~41)
    let s = sorter();
    assert_eq!(
        s.sort_class_string("w-full flex".to_string()),
        "flex w-full"
    );
}

#[test]
fn width_before_padding() {
    // width (idx ~41) before padding (idx ~252)
    let s = sorter();
    assert_eq!(
        s.sort_class_string("p-4 w-10".to_string()),
        "w-10 p-4"
    );
}

#[test]
fn padding_before_text_color() {
    // padding (idx ~252) before font-size (idx ~262)
    let s = sorter();
    assert_eq!(
        s.sort_class_string("text-sm p-4".to_string()),
        "p-4 text-sm"
    );
}

#[test]
fn background_color_before_padding() {
    // background-color (idx ~181) before padding (idx ~252)
    let s = sorter();
    assert_eq!(
        s.sort_class_string("p-4 bg-red-500".to_string()),
        "bg-red-500 p-4"
    );
}

// --- Directional utilities ---

#[test]
fn margin_shorthand_before_directional() {
    // margin (idx ~25) before margin-inline (idx ~26) before margin-top (idx ~30)
    let s = sorter();
    assert_eq!(
        s.sort_class_string("mt-2 mx-4 m-0".to_string()),
        "m-0 mx-4 mt-2"
    );
}

#[test]
fn padding_shorthand_before_directional() {
    let s = sorter();
    assert_eq!(
        s.sort_class_string("pt-2 px-4 p-0".to_string()),
        "p-0 px-4 pt-2"
    );
}

// --- Negative values ---

#[test]
fn negative_margin() {
    let s = sorter();
    assert_eq!(
        s.sort_class_string("p-4 -m-2".to_string()),
        "-m-2 p-4"
    );
}

// --- Variant handling ---

#[test]
fn variants_sort_after_base() {
    let s = sorter();
    let result = s.sort_class_string("hover:bg-blue-500 flex p-4".to_string());
    let parts: Vec<&str> = result.split_whitespace().collect();
    let flex_pos = parts.iter().position(|&c| c == "flex").unwrap();
    let hover_pos = parts.iter().position(|&c| c == "hover:bg-blue-500").unwrap();
    assert!(flex_pos < hover_pos, "flex should come before hover:bg-blue-500, got: {result}");
}

#[test]
fn multiple_variants_sort_after_single_variant() {
    let s = sorter();
    let result = s.sort_class_string("dark:hover:bg-red-500 hover:bg-blue-500 flex".to_string());
    let parts: Vec<&str> = result.split_whitespace().collect();
    let flex_pos = parts.iter().position(|&c| c == "flex").unwrap();
    let hover_pos = parts.iter().position(|&c| c == "hover:bg-blue-500").unwrap();
    let dark_hover_pos = parts.iter().position(|&c| c == "dark:hover:bg-red-500").unwrap();
    assert!(flex_pos < hover_pos, "got: {result}");
    assert!(hover_pos < dark_hover_pos, "got: {result}");
}

// --- Comprehensive example ---

#[test]
fn comprehensive_sort() {
    let s = sorter();
    let input = "text-white text-sm font-medium hover:bg-blue-500 disabled:opacity-50 gap-2 items-center flex py-2 px-4 bg-blue-500 border rounded-lg";
    let result = s.sort_class_string(input.to_string());
    let parts: Vec<&str> = result.split_whitespace().collect();

    // Verify key ordering relationships
    let pos = |name: &str| parts.iter().position(|&c| c == name).unwrap();

    // display before layout properties
    assert!(pos("flex") < pos("items-center"), "flex < items-center: {result}");
    assert!(pos("items-center") < pos("gap-2"), "items-center < gap-2: {result}");
    // border before background
    assert!(pos("rounded-lg") < pos("border"), "rounded-lg < border: {result}");
    assert!(pos("border") < pos("bg-blue-500"), "border < bg-blue-500: {result}");
    // padding after background
    assert!(pos("bg-blue-500") < pos("px-4"), "bg-blue-500 < px-4: {result}");
    assert!(pos("px-4") < pos("py-2"), "px-4 < py-2: {result}");
    // text after padding
    assert!(pos("py-2") < pos("text-sm"), "py-2 < text-sm: {result}");
    // variants last
    assert!(pos("text-white") < pos("hover:bg-blue-500"), "base < hover variant: {result}");
    assert!(pos("text-white") < pos("disabled:opacity-50"), "base < disabled variant: {result}");
}

// --- Batch sort ---

#[test]
fn batch_sort() {
    let s = sorter();
    let result = s.sort_class_attributes(vec![
        "p-4 flex".to_string(),
        "text-white bg-red-500".to_string(),
    ]);
    assert_eq!(result[0], "flex p-4");
    assert_eq!(result[1], "bg-red-500 text-white");
}

// --- strip_variants ---

#[test]
fn strip_variants_none() {
    assert_eq!(strip_variants("flex"), (0, "flex"));
}

#[test]
fn strip_variants_single() {
    assert_eq!(strip_variants("hover:flex"), (1, "flex"));
}

#[test]
fn strip_variants_multiple() {
    assert_eq!(strip_variants("dark:hover:flex"), (2, "flex"));
}

#[test]
fn strip_variants_arbitrary() {
    // Brackets should not count as variant separators
    assert_eq!(strip_variants("[&>svg]:flex"), (1, "flex"));
}

// --- lookup_sort_key ---

#[test]
fn lookup_exact_match() {
    assert!(lookup_sort_key("flex").is_some());
    assert!(lookup_sort_key("hidden").is_some());
}

#[test]
fn lookup_prefix_strip() {
    // p-4 → strips to "p" which maps to padding
    assert!(lookup_sort_key("p-4").is_some());
    assert!(lookup_sort_key("m-auto").is_some());
    assert!(lookup_sort_key("bg-red-500").is_some());
}

#[test]
fn lookup_negative() {
    // -m-4 → strips "-" → "m-4" → "m"
    assert!(lookup_sort_key("-m-4").is_some());
}

#[test]
fn lookup_unknown() {
    // "xyz-whatever" doesn't match any Tailwind prefix
    assert!(lookup_sort_key("xyz-whatever").is_none());
    // Note: "my-custom-class" would match "my" (margin-block) via prefix
    // stripping — this is expected since we can't distinguish custom classes
    // from Tailwind utilities without compiling CSS.
}


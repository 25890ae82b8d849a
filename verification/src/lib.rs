//! Sorting of Tailwind CSS class lists by the CSS properties that each
//! utility class generates, as Tailwind CSS v4's compiler orders utilities.
//!
//! - Each utility class maps to one or more CSS properties (`data`, `table`).
//! - Each CSS property has a position in the canonical property order.
//! - A class's sort key is the sorted, deduplicated set of its property
//!   positions, with its number of declarations (`lookup`).
//! - Classes compare by variant count, then property positions element by
//!   element (a missing position counts as later than any other), then
//!   declaration count (more first), then text (`order`), and are sorted
//!   stably (`sort`).
//! - Variant prefixes (`hover:`, `md:`) are stripped to find the base
//!   utility (`variants`).
//! - Unknown classes sort last, keeping their relative order.
//!
//! `laws` and `idempotence` state what holds of every sort.

pub mod data;
pub mod idempotence;
pub mod laws;
pub mod lookup;
pub mod order;
pub mod sort;
pub mod sorter;
pub mod table;
pub mod text;
pub mod value;
pub mod variants;

pub use lookup::lookup_sort_key;
pub use order::{compare_classes, ClassSortKey};
pub use sorter::{remove_duplicates, ClassSorter, SortOptions};
pub use table::SortKey;
pub use value::is_numeric_or_keyword_value;
pub use variants::strip_variants;

# tailwind-sorter

Sorts Tailwind CSS v4 class lists the way Tailwind's compiler orders
utilities: by the positions of the CSS properties each utility generates in
the canonical property order (a class whose positions run out first comes
after, so utilities whose properties are all outside the order come after the
rest), with variants after base classes and unknown classes last, in their
original order. The comparison is a total preorder, so the result does not
depend on the order of the input beyond ties. The library is written in Verus; every function in `src/`
carries a contract that Verus proves.

- `src/data.rs`: the property order and the class-to-property tables, as text.
- `src/text.rs`, `src/variants.rs`, `src/value.rs`: splitting and trimming,
  variant prefixes, size/keyword versus colour values.
- `src/table.rs`, `src/lookup.rs`: the prefix table and the sort key of a class.
- `src/order.rs`, `src/sort.rs`: the comparison of classes and a stable sort.
- `src/sorter.rs`: `ClassSorter`, the public entry point.
- `src/laws.rs`, `src/idempotence.rs`: properties proved of every sort.
- `app/`: a process-wide sorter built once on first use.

# namespaced_id

Human-readable identifiers made of components separated by colons, such as
`namespace:path` or `namespace:path:operation`, with their validation and
component access proved correct.

Layout of `src/`:

- `validation.rs`: which bytes an id may hold, `validate` and `ParseError`.
- `components.rs`: splitting an id into its components and joining them back.
- `id.rs`: the borrowed, owned and shared id types and their operations.
- `loose.rs`: the looser namespaced ids that forbid ASCII whitespace and ask for one colon;
  strings whose first non-ASCII byte comes before any whitespace are outside its contracts.
- `compare.rs`: equality and ordering between ids and the strings that spell them.
- `laws.rs`: properties that relate several operations.
- `text.rs`: strings seen as UTF-8 bytes.

`app/` holds the error types with `Display` messages and the `serde` support.

There are no compile-time id macros (`ident!`, `op_ident!`, `ident_component!`); ids are
built at run time with `DelimitedIdRef::new` and the `try_from_*` constructors, which run the
same validation.

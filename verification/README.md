# moongraphql_builder

Typed construction of GraphQL documents, with proved contracts: canonical (sorted,
duplicate-free) field selections, complexity and depth budgets, declarative argument
validation with localized messages, inline or parameterized compilation, composite
multi-root documents and request batches.

Schemas are data: a `SelectorSchema` lists the fields of an object type with their weights, a
`QuerySchema` lists the arguments of a root query with their GraphQL types, spellings and
validation rules. Builders are checked against these descriptions.

## Layout

- `src/` — the verified library.
  - `text.rs` — text utilities (decimal spelling, joining, ordering, UTF-8 length).
  - `i18n.rs`, `error.rs` — Russian/English diagnostics and the error type.
  - `validation.rs` — argument values, rules and custom predicates.
  - `selector.rs` — field selectors and their laws (order independence, no duplicates).
  - `query.rs` — query builders: validation, inline and parameterized compilation.
  - `metrics.rs` — the pre-flight validator of arguments, complexity and depth.
  - `composite.rs`, `batch.rs` — multi-root documents and batches of documents.
  - `payload.rs` — variables dictionary and transport models.
- `app/` — unverified glue: JSON (serde) forms of the transport models, an error type with
  `Display`, a process-wide locale, and concurrent dispatch of a batch.
- `tests/` — behaviour on concrete values.

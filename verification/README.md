# sqlx_qb

A query builder for SQLx that writes the SQL text of simple CRUD statements
and the arguments bound to their `$n` placeholders.

- `src/` is the library, verified with Verus. Its contracts state the exact
  text each function writes (`text.rs` holds the text models: decimal
  numbers, joining, trimming, the order of texts), the column maps kept in
  column order (`map.rs`), the `WHERE`/`ORDER BY`/`LIMIT` modifiers
  (`modifiers.rs`), the statements and the builder (`builder.rs`), the
  snake case of model names (`model_args.rs`), and the properties that span
  several functions (`laws.rs`).
- `app/` runs the statements through SQLx (`QB` with an executor, the
  `Model` and `ModelInsert` traits), reads serde values as JSON, and holds
  the model derives over `proc_macro2` token streams and the
  `query_map!`, `json_map!` and `query_sort!` macros.
- `tests/` exercises the library on concrete values.

Notes on the design:

- The column map keeps its pairs in a `Vec` ordered by column, with that
  order as its type invariant, rather than in a `BTreeMap<String, String>`.
  vstd states what `BTreeMap::insert` and `BTreeMap::iter` do only under
  `obeys_cmp::<Key>()`, and gives `String` no specification of its `Ord`
  (no `OrdSpecImpl`), which this crate may not supply either. Verus
  confirms it: after one `insert` into an empty `BTreeMap<String, String>`,
  it cannot prove that the map holds one key. Here the order of the columns,
  and that a map has exactly one ordered form, is stated and proved.
- Placeholders are always written `$1`, `$2`, ...: there is no cargo feature
  to choose the `?` placeholders of MySQL.
- The model derives are plain functions over `proc_macro2` token streams:
  `app/` is an ordinary library crate, and a `#[proc_macro_derive]` needs a
  crate of its own kind. A proc-macro crate can wrap them in one line each.

# lake_berg

A lake of iceberg tables that takes batches of records by topic, with transactions: the writes of a
transaction wait until it ends, and are stored when it commits.

- `src/` is the library, verified with Verus. It decides; it does no I/O. `staging`, `plan` and
  `store` are the writes: how they wait, in which order they are stored, and how the writes of one
  topic reach its table. `table`, `namespace` and `catalog` are where they go, and `shared` says what
  lakes on one catalog make of it. `engine` holds the steps that need the iceberg, arrow and uuid
  crates, `house` and `builder` the lake as a whole.
- `app/` runs the steps against a catalog, files and a schema registry.
- `tests/` runs the library, with the iceberg crate's catalog in memory where one is needed.

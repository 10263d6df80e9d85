# pg_tviews

Transactional materialized views ("TVIEWs") for PostgreSQL: a `tv_<entity>`
table kept up to date, row by row, from a backing view `v_<entity>` as the
base tables change within a transaction.

- `src/` is the verified library (Verus): the refresh queue and its
  transaction and savepoint semantics, direct JSONB patches, the dependency
  graph and its topological order, the parsers of TVIEW definitions and
  schema inference, propagation to parent TVIEWs, the resolution and lookup
  of cascade paths, and every SQL statement the extension builds from names
  and values, each with a contract (`app/` runs only fixed catalog queries
  besides them).

The extension does not extract cascade paths or `DISTINCT ON` keys from a
TVIEW definition (that needs a parser of `JOIN` trees it does not have):
`CREATE` registers none, so a TVIEW is refreshed through its own
`tb_<entity>` base table and through parent propagation, and one without
such a table is refused.
- `app/` is the PostgreSQL extension around it (pgrx): the SQL functions, the
  utility hook, the transaction callbacks and all catalog access through SPI.
- `tests/` exercises the library on concrete values.

# fastpg

The logic of a PostgreSQL-compatible server, with contracts that Verus proves:

- `src/parser.rs`, `src/lexing.rs`, `src/bind.rs`: the statements that are read
  without a core, and their binding to the types of columns.
- `src/bootstrap/`: the files that the compiled-in catalogs come from, the views
  of roles and indexes that are added to them, and how each one gets its rows.
- `src/catalog/`: the system catalogs. What is compiled in, the rows that follow
  from it, the records and rows that sessions put over it, transactions, and the
  lookups by name and identifier with their caches. What compiled-in data has to
  be like stands in `validity.rs`, with a function that tells whether it is.
- `src/exec/`: what becomes of the replies of the core that runs statements, and
  the reading of copied data.
- `src/text.rs`, `src/search.rs`, `src/ordered.rs`, `src/stable.rs`,
  `src/types.rs`: what the rest is built on.

`app/` is one process around the library: the making of the compiled-in
catalogs at its start, the shared catalogs behind their locks, the sessions of
threads, and an executor on a core and its storages, which it knows by the
traits of `app/engine.rs`.

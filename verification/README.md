# mongo_read_query

Builds MongoDB read queries: from the arguments of a query (filter, ordering, cursor, skip, take,
selection, groupings) to the stages of an aggregation pipeline. What each step gives is stated in
contracts and proved with [Verus](https://github.com/verus-lang/verus).

- `src/arguments.rs`, `src/filter.rs`: the arguments and the filters.
- `src/condition.rs`, `src/native.rs`: filters in MongoDB's native query syntax, which lets the
  server use indexes. A filter that has no native form falls back to an aggregation expression.
- `src/query.rs`: what a query is built from, and the pipeline that it stands for.
- `src/read_query_builder.rs`, `src/stages.rs`: the builder.
- `src/filter_laws.rs`, `src/query_laws.rs`: what holds of filters and of queries as a whole.
- `src/document.rs`, `src/pattern.rs`: BSON documents and regular expressions. The functions marked
  `external_body` there call the `bson` and `regex` crates; their contracts are trusted, everything
  else is proved.
- `app/`: runs a query on a server.

Parts of a query that depend on the schema (expressions for filters, lookups for joins, orderings,
cursors, groupings, projections) are rendered by functions that the caller passes in. The contracts
say what is handed to them and where their results go.

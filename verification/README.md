# sinks

The sinks of a production-data pipeline: the stages that check rows,
count process-parameter vectors per material and per operator, count
batches per material, tally quality inspections per batch, and buffer rows
for SQLite and MySQL.

- `src/` is the library, verified with Verus: every function carries a
  contract over a mathematical model of its data (sequences, sets and maps
  of strings), and the laws that tie functions together are proof
  functions named `law_*`.
- `tests/` runs the library on concrete rows.
- `app/` is the pipeline side: the asynchronous sink interface, reading the
  JSON configuration files, SQLite and MySQL access, and the
  floating-point parts (purity, pass percentages, composite scores and the
  per-material ranking).

Module map of `src/`:

| module | what it holds |
|---|---|
| `text`, `order` | character sequences: trimming, joining, searching, ordering, sorting |
| `data`, `error` | the pipeline row and the sinks' errors |
| `data_checker` | marking rows valid or invalid, stamping the outcome |
| `process_vector`, `row_values`, `vector_field_config` | process vectors and their signatures, output cells |
| `vector_counts` | occurrence counts of vectors per key |
| `puaration`, `puaration_config` | vector statistics per material, batch records, quality joins |
| `operator_parser`, `operator_puaration`, `operator_config` | vector statistics per main operator |
| `material_production` | distinct batches per material |
| `quality_param`, `quality_inspection` | parameter texts, per-batch quality tallies |
| `stats_flow`, `end_sink` | running the statistics sinks in a configured order |
| `sqlite_writer`, `sqlite_sink`, `legacy_sqlite`, `mysql_sql` | SQL text, buffered writing, database configuration |

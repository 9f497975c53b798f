# EventHorizon

A semantic data gateway: agents send typed intents (read or append an
entity), the gateway validates them against the declared entity schema,
routes them by declarative first-match rules to a bound source, and
compiles them into parameterised SQL for the backend.

## Layout

- `src/` — the library, verified with Verus:
  - `intent`, `entity`, `json`, `artifact`, `access`, `caller_context` —
    the core data model and its views;
  - `config` — configuration shapes, secret references, compilation into
    the indexed `CompiledConfig`;
  - `compiler`, `router`, `dispatch`, `protocol` — intent validation,
    routing, and the decisions of the intent pipeline;
  - `connector` — capabilities, errors and the connector registry;
  - `mysql` — identifier safety, `SELECT` / `INSERT` builders, typed value
    conversion in both directions, column discovery, scan planning and
    column buffers for the query engine;
  - `engine`, `telemetry` — engine policy defaults, metric and label names;
  - `values`, `text`, `strmap` — value codecs (behind contracts on the
    `hex`, `uuid`, `rust_decimal`, `chrono` and `arrow` calls), text
    helpers and an ordered string-keyed map.
- `app/` — the binary and everything around the library that does I/O:
  the REST edge (axum), the `sqlx` MySQL connector, the DataFusion table
  provider and catalog, the YAML / JSON wire shapes (serde), the config
  loader and cache, tracing and Prometheus.
- `tests/` — the test suite, run against the compiled library.

# framelaw

Schema-based validation of columnar data frames. The library in `src/` states
the behaviour of its rules, column specs, schemas and schema inference as Verus
contracts and proves them; the rules with floating-point thresholds live in
`app/` and are not verified (the library turns their per-row verdicts into
errors).

## Layout

- `src/` — the verified library.
  - `frame.rs`: the column model (`DType`, `Value`, `Series`, `DataFrame`),
    null counts, distinct counts, duplicated rows, column lookup.
  - `checks.rs`: the `Check` trait and the built-in rules `NotNull`,
    `UniqueValues`, `MatchesRegex` (through the `regex` crate) and
    `OneOfString`, with the exact errors each one reports.
  - `column.rs`: `ColumnSpec` and its validation against a frame.
  - `schema.rs`: `Schema` and the report gathered over its columns.
  - `inference.rs`: inference of column specs from data, and the proof that
    inferred rules hold on the data they were inferred from.
  - `errors.rs`: `ValidationError`, `ValidationReport` and its summary.
  - `text.rs`: decimal rendering of numbers.
- `app/` — ordinary Rust around the library: reading Polars frames into the
  column model, the rules with floating-point thresholds (`GreaterThanF64`,
  `LessThanF64`, `BetweenF64`), validation and inference spread over threads
  with Rayon, and the Python module built with PyO3.
- `tests/` — tests of the library.

# autoparq

Profiles Parquet files and recommends encodings and codecs per column for a
given query engine and priority, with footer diagnostics, row-group and sort
advice, benchmarks and copy-paste write snippets.

- `src/` is the library, verified with Verus: footer summaries, column
  statistics, the encoding and codec rules, engine compatibility, diagnostics,
  report assembly, snippet generation, benchmark planning and writer settings.
  Fractions are exact (`ratio::Ratio`); `laws.rs` states properties that span
  several functions.
- `app/` reads files and samples through `parquet`/`arrow`, computes the
  floating-point measures (HyperLogLog estimate, byte entropy), rewrites and
  benchmarks files, serializes reports to JSON, and holds the Python and
  WebAssembly bindings.
- `tests/` exercises the library on concrete values.

# search_segment_gc

A garbage collector for text and vector index segments in search storage, with
its decisions verified by Verus.

- `src/` is the verified library: harvesting the keep set from index metadata,
  selecting orphans, planning a round and counting how it went, the registry of
  index builds in progress, validating the configuration, and what there is to
  report as metrics. `src/laws.rs` states what holds of a round as a whole: only
  listed, unreferenced objects past the minimum age are ever deleted, a round
  that storage and metadata do not agree on deletes nothing, and every object is
  accounted for.
- `app/` runs a round against a database and a storage, with logging, metrics
  and a registry shared between threads.
- `tests/` runs the library.

The one outside function that the library relies on is SHA-256, from the `sha2`
crate. Its result has a name in the contracts, `sha256`, and no further meaning
there than its length.

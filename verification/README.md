# concurrency_basics

The verified core of a tour of Rust ownership and concurrency.

- `src/` is the library, verified with Verus: a lock-friendly counter and the
  laws that make its total independent of the order of updates (`counter`),
  a source of unique tensor ids (`tensor`), sequential and `rayon`-parallel
  sums of squares and other folds (`sums`), section banners and messages
  (`text`, `trees`), a random delay below a bound (`timing`), a configuration
  with neutral defaults (`config`), and small ownership examples (`foo`,
  `ownership`).
- `app/` is the program that runs the tour: threads, channels, locks, `tokio`
  and `futures` runtimes, logging and `serde_json`, all of which call into the
  library for what they compute.
- `tests/` exercises the library on concrete values.

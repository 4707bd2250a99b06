# cc-blackbox-core

Snapshots of compacted conversations: detection, bounded retention, redaction and drift scores,
written in Verus and verified.

- `src/` is the verified library. `src/lib.rs` lists its modules. `src/laws.rs` and
  `src/store_laws.rs` state what holds across functions.
- `tests/` runs the library.
- `app/` is the ordinary Rust around it: settings from the environment, a store that threads
  share, JSON on the wire, and the run of the drift analyzer.

What is trusted and not proved stands in three files: `src/patterns.rs` (replacement by regular
expressions), `src/hash.rs` (what a byte slice feeds to a hasher) and `src/analyzer.rs` (lossy
reading of UTF-8), beside the appending of a character to a string in `src/chars.rs`.

Scores and confidences are whole percents in the library. The assistant that conversations are
with is named by the caller; its name stands in messages, is the default command of the
analyzer, and does not count as a keyword.

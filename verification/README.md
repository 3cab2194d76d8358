# ime_core

An offline input-method core whose logic is proved with Verus.

- `src/` is the verified library: the grapheme-aware composer, the `Idle` /
  `Composing` / candidate-selection state machine of a session, action
  acknowledgement and failed-commit recovery, the dictionary-backed candidate
  pipeline (deduplication and deterministic ranking), the C ABI's validation
  and result assembly, and the command parser of the REPL. Each public function
  carries a contract over spec models; `src/laws.rs` states the properties that
  span several calls.
- `app/` holds what Verus does not see: the REPL's `main` and the `extern "C"`
  functions that read and write raw pointers.
- `tests/` runs the library on concrete values.

Grapheme clusters come from the `unicode-segmentation` crate; the one call into
it, like every other trusted item, carries a doc comment that says what its
contract claims.

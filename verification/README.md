# membrid

Memory management for small language models, verified with Verus.

The library manages what goes into a model's context: a ring buffer of
recent turns, content-addressed episodes, an id-keyed fact store, and the
Arrow columnar layout that storage backends exchange.

## Layout

- `src/` — the verified library.
  - `types.rs`: episodes, entities, facts, retrieved memories; memory ids
    (first 16 bytes of blake3 over content and timestamp) and their hex text.
  - `memory/working.rs`: the working-memory ring buffer.
  - `arrow/mod.rs`: the table schemas; `arrow/convert.rs`: episodes to record
    batches and record batches to retrieved memories; `arrow/interop.rs`: the
    Arrow values the library builds and reads.
  - `storage/memory.rs`: the in-memory fact store (upsert by id, delete by id).
  - `embedding/mod.rs`: the zero-vector embedding engine.
  - `error.rs`: the error type and its messages.
- `app/` — the API applications use: serde and thiserror types, the async
  storage and embedding traits, and the floating-point vector search.
- `tests/` — tests of the library.

Floating-point values (embeddings, scores, confidences) are held in the
library as their IEEE-754 binary32 bit patterns.

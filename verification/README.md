# xerv-core

Core types and logic of the XERV orchestration platform, written in Verus: the functions
under `src/` carry contracts that Verus proves, except for a small set of trusted
wrappers (marked `#[verifier::external_body]`). Each of these makes one call into an
outside crate or the standard library (byte-order encoding, UUIDs, SHA-256 and hex,
JSON string escaping and checking, time formatting, the clock, lower-casing, character classes, appending a character).
Verus takes their contracts on trust; each one's doc comment says what it claims of
the call.

## Layout

- `src/` — the verified library.
  - `types`, `text`, `strmap`, `keyed`: identifiers, text helpers, small ordered maps.
  - `error`: the error enum, its stable codes and its messages.
  - `arena`: the arena file header and its byte encoding, allocation tracking,
    compaction planning and moves, checked writes and reads of arena bytes.
  - `schema`: versions and ranges, type metadata, field defaults, compatibility
    reports, migration graphs with shortest paths, the versioned registry and its
    saved form.
  - `dispatch`: trace requests, configurations, the in-memory and Raft queues, and the
    keys, entries and decisions of the Redis and NATS backends.
  - `auth`: scopes, API keys and their hashes, authentication and authorization.
  - `logging`: events, filters and the bounded event buffer.
  - `flow`: flow definitions, nodes, triggers, edges, YAML values and validation.
  - `suspension`: suspension requests.
- `app/` — the runtime around the library: memory-mapped arena files, YAML and JSON
  documents, environment settings, async dispatch backends (memory, Raft, Redis, NATS)
  and shared log collectors.
- `tests/` — tests of the library.

Laws that relate several functions are public proof functions named `lemma_*`, next to
the functions they speak of.

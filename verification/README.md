# openstrike

The versioned guest/native contract and the strict scenario and input-tape
formats of the OpenStrike first vertical slice, with their rules proved in
Verus.

- `src/contract.rs` — wire constants, phases, facts, events, commands and the
  shared validation gates, with the phase and batch laws.
- `src/scenario.rs` — scenario and tape validation (floating-point inputs are
  carried as IEEE-754 bit patterns), held tape input and the tick cursor.
- `src/runner.rs` — run settings and overrides, event summaries, assertion
  checks, capture records (SHA-256 through `sha2`), spawn selection,
  scenario search paths, the override echo and the run summary of result
  documents.
- `src/json.rs` — a plain JSON model with equality, member and path lookup,
  and the well-formedness of its objects.
- `src/host.rs` — host lifecycle intents, command tags, strict reading of
  guest command batches, and boot spawn plans.
- `src/text.rs` — character-level string helpers.
- `app/` — JSON (serde) file formats, file search, float presentation values
  and result documents around the library.

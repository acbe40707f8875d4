# roleplayer

The core of an LLM-ruled text roleplay runtime: the language model acts as the
Game Master, the player narrates, and every change to the game state goes
through validated tool calls that are audited and persisted.

`src/` is the library, written in Verus. Verus proves the contract of every
function in it except the few trusted wrappers that make outside calls
(fresh UUIDs, the clock, Unicode lower-casing, random dice faces, lossy
UTF-8 decoding): their contracts restate what those crates and std document
and are believed, not proved. The modules:

- `text`, `json` — character-level string helpers and the JSON value model.
- `errors`, `ids` — the shared error taxonomy, fresh ids and timestamps.
- `llm`, `game_command` — the provider-agnostic message types and the
  game-command seam.
- `campaigns`, `characters`, `rulesets`, `memories`, `world_state`, `search` —
  the feature domains: validation, entity construction, the world document
  with its audit trail, summaries, and the full-text query builder.
- `providers` — the reference mock, the OpenAI-compatible wire decisions
  (payloads, streamed-delta folding, server-sent-event framing), the adapter
  registry, key handling and the provider service rules.
- `turnflow` — dice, the world-update command, and the agentic turn loop.

`app/` wires the library to SQLite, the OS keyring, HTTP and an async runtime,
and serves the command API as JSON lines on stdin. `tests/` exercises the
library from outside.

# blackbox_sim

A deterministic, offline finance simulation used as a decision-bias
instrument, together with the gates of the interview coliseum, written in
Verus: every function in `src/` carries a contract that Verus proves,
except four small wrappers around outside code (`sha2`'s SHA-256,
`hex::encode`, `str::trim` and `char::to_lowercase`), whose contracts are
trusted and say only what those functions are documented to do.

## Layout

- `src/` — the verified library.
  - `money`, `ring`, `ledger`, `fsm`, `rng`, `unit_scale`: integer money,
    bounded rings, the double-entry ledger, the session state machine, the
    counter-based random stream and its exact binary64 scaling.
  - `genesis`, `genesis_json`, `market`, `firm`, `action`, `settle`,
    `oracle`: campaign genesis, the operating firm, the compiler from player
    intents to balanced postings, period close and cash-flow statement, and
    the sealed reference valuations.
  - `stimulus`, `telemetry`, `bias`, `persist`, `snapshot`, `digest`: the
    measurement probes and their answer key, the decision log, the
    confidence gate, outbound persistence and state checkpoints.
  - `director`, `bridge`, `phantom_bot`: the turn-by-turn session, pooled
    replay checks and the fixture-blind calibration player.
  - `text`, `tactics`, `interviewer_context`, `render_guard`, `mentor_zpd`,
    `evaluation`, `session_artifact`, `coliseum`, `coliseum_commands`,
    `commands_db`, `request_cap`: the interview coliseum's tactic compiler,
    leak guard, evaluation gates, frozen session artifacts and IPC checks.
- `tests/` — executable tests against the compiled library.
- `app/` — the shell around the library: the floating-point market kernel,
  the turn driver and replay, the serialized wire shapes and the command
  entry points.

The laws the library keeps are public proof functions named `law_*`.

# aros-sie

The Self-Improvement Engine of AROS: the building blocks of Loop 0
(PERCEIVE → SELF-MODEL UPDATE → CRITIQUE → POLICY REVISION → IDENTITY CHECK →
PERSIST), written in Verus with machine-checked contracts.

## Layout

- `src/` — the verified library.
  - `perceive` — perception engine (ingest, grouping by capability, pruning).
  - `critic` — meta-cognition engine: failure streaks and the typed outputs
    (no action, memory write, alert, experiment, policy update).
  - `policy` — DAG archive of policy snapshots (commit, fork, best-k,
    ancestry), configuration diffs, two-tier skill library.
  - `identity` — drift-ceiling guard and permission asymmetry
    (tighten / loosen / never).
  - `persistence` — state-store trait and the in-memory store.
  - `self_model` — the self-model's per-capability state, snapshots and
    restore.
  - `shadow` — frozen datasets.
  - `float_bits`, `ranking`, `json`, `table`, `text` — binary64 values held by
    their bit pattern and compared exactly, top-k selection, JSON values,
    string-keyed and id-keyed maps, text rendering.
- `app/` — unverified glue: the Beta-distribution arithmetic of the self-model, cosine drift,
  shadow-test scoring and imp@k (all binary64 arithmetic), serde and thiserror
  forms of library types, tracing spans, and the component traits in the shape
  the kernel consumes.
- `tests/` — tests of the library.

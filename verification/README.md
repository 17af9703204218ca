# immich-extended

A rule engine that sits next to Immich and fills albums from compound
predicates (people present or absent, a place, a time window, media type).
The logic is written in Verus and proved against its contracts; the server
around it is ordinary Rust.

## Layout

- `src/` — the verified library.
  - `schema`, `match_expr`, `predicate`, `validator`: the rule language, the
    match tree and its measures, the predicate evaluators, and rule
    validation (written as steps that ask the caller for the owner's person
    ids and album writability).
  - `tree_eval`, `tree_verdict`: evaluation of a match tree on one asset,
    and the proof that a legacy flat rule and the tree it converts to reach
    the same verdict and report the same reason. Whether an asset lies
    inside a location circle is floating-point geometry, answered by the
    caller.
  - `album_sync`: what a pass adds to an album while respecting manual
    removals.
  - `activity`: the bounded, per-user live activity log.
  - `engine_cycle`, `indexer`, `scheduler`: the plan of a matching pass
    (counts, decisions, events, the album-add line), the decisions of the
    library indexer, and which per-rule poll tasks run.
  - `immich`, `keys`, `onboarding`, `rules_api`, `auth`, `session`,
    `config`: the decisions behind the HTTP API.
  - `crypto`, `password`: AES-256-GCM wrapping of stored Immich keys and
    Argon2id password hashing, through the `aes-gcm`, `hex`, `rand`,
    `argon2` and `password-hash` crates.
  - `text`: string helpers with specifications.
- `tests/` — tests of the library, run with the real outside crates.
- `app/` — the program: configuration, SQLite storage, the Immich HTTP
  client, the axum routes, OIDC login, the background indexer, the per-rule
  scheduler and the matching passes that run the library's steps against
  the database and Immich. The great-circle distance test of location
  blocks lives there, being floating point. The people detector is not part
  of this build: person counts come only from the cache of earlier
  inferences.

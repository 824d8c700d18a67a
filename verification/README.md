# divine_sky

The Nostr-to-AT-Protocol bridge of Divine, with the AppView read side, as a
Verus library: NIP-71 video events are checked, translated into
`app.bsky.feed.post` records with a video embed and published to per-account
PDS repos; accounts are provisioned (keys, PLC identity, PDS account); the
AppView indexer mirrors PDS repos and the AppView serves read-model views.

## Layout

- `src/` — the verified library. Each outside service (relay, PDS, PLC
  directory, video service, database) is driven through a state machine:
  a step function takes the state and the outcome of the last outside call
  and returns the next state and the next call to make (`pipeline`,
  `provisioner`, `deletion`, `pds_accounts`, `plc`, `video_service`,
  `legacy_repair`). Parsing, translation, record keys, TIDs, signatures,
  configuration and the read-model views are plain functions with exact
  contracts; the laws that span several calls are public proof functions.
  Calls into outside crates (hashing, encodings, secp256k1, AES-GCM, JSON,
  dates, graphemes, randomness, the clock) go through small trusted wrappers.
- `tests/` — scenario tests, run against the real outside crates.
- `app/` — the executables: HTTP plumbing, serde copies of the
  library's wire types, and the loops that perform what the step functions
  ask for.

## What app/ does not do

The bridge database layer and the publish-job queue are not part of this
crate, so app/ keeps account links, record mappings and the ingest cursor in
memory; it runs no backfill planner and no publish workers (the bridge
publishes each new event directly), and the legacy BadJwt repair tool stops
with an error once its arguments are validated, since the publish-job tables
it works on cannot be reached. `bridge` polls the relay's REST API;
`bridge-relay` follows the relay over a WebSocket session instead.

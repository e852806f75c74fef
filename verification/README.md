# backend

The verified core of a tournament platform's backend: the rules that decide,
each proved against its contract with Verus.

- `src/evidence.rs`, `src/s3.rs`, `src/digest.rs` — dispute evidence uploads:
  content-type, size and file-signature checks, the SHA-256 fingerprint, the
  object key `{user}/{match}/{hash}.{ext}`, and the AWS SigV4 signature of the
  `PUT` that stores the file (HMAC-SHA256 built on the `sha2` crate).
- `src/flags.rs`, `src/segments.rs`, `src/variant_map.rs`, `src/json.rs` —
  feature flags: rollout buckets, weighted A/B assignment over a name-sorted
  variant map, segment targeting, validation of flag definitions, and the
  evaluation priority (override, kill switch, rollout, segments, A/B, on).
- `src/season.rs` — season close: rating decay toward 1200 (floor 800), the
  snapshot rows, the next season's name; a player's leaderboard figures.
- `src/orchestrator.rs` — the background workers as state machines: the
  lock-guarded polling sweep and the job queue with its dead-letter path.
- `src/models.rs`, `src/timestamp.rs`, `src/error.rs`, `src/text.rs` — shared
  vocabulary and character-level helpers.
- `src/laws.rs` — properties of the whole: fingerprints, key separation,
  rollout, evaluation priority, sticky assignment, decay, lock release and
  dead-lettering in the workers.
- `app/` — the Postgres, HTTP and clock plumbing that hands rows to the library
  and writes back what it decides.

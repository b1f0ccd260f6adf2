# vea

Vea's authorization boundary and durable event store, with the decisions of
both proved correct by Verus.

## Layout

- `src/` — the verified library.
  - `bytes`, `json`, `canonical` — byte predicates, integer-only canonical JSON,
    and domain-separated SHA-256 digests.
  - `action`, `order`, `engine`, `approval` — typed action proposals and their
    validation, capability scopes, effective policies, the policy decision, and
    short-lived approvals bound to action, policy and broker state.
  - `error`, `model` — the store's errors, commands, aggregates and validation.
  - `projects`, `side_effects` — what each command records and what replaying
    its event rebuilds; side effects move `authorized -> started -> finished`,
    or to `unknown` when a start was interrupted.
  - `keyed`, `replay` — replaying the whole event stream into projections and
    comparing them with the stored ones.
  - `ledger`, `migrations`, `paths`, `host` — admission, optimistic revisions,
    exact-retry receipts, audit metadata, trigger checks, schema migration
    history, path normalization, and the desktop host's description.
- `app/` — SQLite, files, locks, clocks, random ids and JSON around the
  library: the `Store` facade and the serde forms of the library's types.
- `tests/` — tests of the library on concrete values.

# brain

The journal and local-execution core of an agent brain, written in Verus.

- `src/` is the verified library: record and frame formats, the HEAD document and its
  projections, retention accounting, the in-memory journal store (sessions, leases and fences,
  child admission, tenant meters, sandboxes, deletion, paging), the journal facade, the
  relational journal's consistency check, the write
  queue's admission and batching rules, a session's journal projection and fold, and the local
  tool decisions (path mapping, bounded reads, grep and glob selection, stream capture).
- `tests/` exercises the library from outside.
- `app/` is the unverified shell: command-line limits, segment files on disk, JSON wire
  copies of records, the writer thread, and local tool execution.

Calls into `sha2`, `xxhash-rust`, `base64`, `regex` and `globset` stand behind small trusted
wrappers whose contracts name or state what those crates compute.

# twine

The verified core of Twine, a Git collaboration server that serves
repositories over Git smart HTTP and offers a small JSON API for
repositories and their members.

## Layout

- `src/` — the library, verified with Verus:
  - `paths` — where a repository lives below the scan path; names that
    would escape it are refused.
  - `access` — roles (owner, member, collaborator), their rights, and the
    member list of a repository.
  - `catalog` — the repository catalog and the decisions of every API and
    Git endpoint: who may create, read, delete, manage members, fetch and
    push, and what each refusal answers.
  - `protocol` — pkt-line framing, the `info/refs` advertisement, ref
    ordering, content types and the service subcommands.
  - `metadata` — store keys, ref snapshots and index states.
  - `indexer` — when a repository is due for reindexing, how gix
    classifies and shortens ref names, and what a run records from the
    refs it found.
  - `config`, `server_config` — configuration values and their defaults.
  - `reader` — keys of the README and diff render caches.
  - `assoc`, `text` — association lists and character-level helpers.
- `tests/` — tests of the library.
- `app/` — the server binary: HTTP routing (axum), RocksDB metadata store,
  listing refs and reading repositories (gix, git2), render caches (moka), configuration
  loading (confique) and the `git` subprocesses.

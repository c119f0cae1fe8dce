# limes

Login manager and screen-lock library. Frontends collect credentials and
render; the library owns authentication orchestration, PAM bookkeeping, lock
state, session launch, configuration, session discovery and backend events.
Every function of the library is verified with Verus against its contract,
but for four small wrappers over std and zeroize whose contracts are trusted.

## Layout

- `src/` — the verified library.
  - `proto` — requests, outcomes, sessions and events shared with frontends.
  - `config`, `cli` — the `LIMES_*` settings and the `limes` command line.
  - `auth`, `pam` — the authentication traits, PAM status mapping, the PAM
    conversation, the order of the PAM calls and the transaction table.
  - `lock`, `display` — the lock manager and the Wayland session-lock
    worker's decisions.
  - `session`, `runtime`, `frontend`, `events` — session start, the login and
    lock runtimes, frontend launch, event delivery.
  - `catalog`, `dirs` — `.desktop` session files, `LIMES_SESSIONS` lists and
    the XDG session directories.
  - `text` — character-level helpers with their specifications.
  - `laws` — properties that span several operations, proved.
- `app/` — the `limes` program: environment and terminal I/O, the libpam and
  libc calls, child processes and the Wayland connection.
- `tests/` — tests of the library on concrete values.

# gitsurveil

A background monitor for GitHub action items: review requests, assignments,
mentions, failing CI, pull requests ready to merge, and activity on pull
requests you opened or reviewed. It scores every item, interrupts you only
when something outranks what is already at the top of your list (a failing
build always interrupts), and helps resolve merge conflicts on throwaway
worktrees.

## Layout

- `src/` — the library, written in Verus. Every function carries a
  `requires`/`ensures` contract that Verus proves: scoring and the
  notification gate (`priority`), the poll cycle's decisions (`poller`,
  `diff`), normalization of GitHub payloads (`github`, `pr`), conflict-marker
  parsing with byte-exact round trips (`parse`, `lines`, `session`), the
  store's column encodings (`codec`, `ordered`), the local API's parameter
  checks (`api`), worktree rules (`worktrees`, `repo`), start-up decisions
  (`startup`, `service`) and the desktop messages (`notifications`).
  The laws the library promises across calls stand as public `proof fn`s
  named `lemma_*`.
- `app/` — the daemon around the library: command line, SQLite store,
  GitHub transport, git operations, keychain, desktop notifications, the
  local API (a unix socket, or a named pipe on Windows) and the login
  registration (launchd agent, systemd unit or `Run` registry value). It
  hands the library plain values and acts on what comes back.
- `tests/` — tests of the library on concrete values.

Time arithmetic (`chrono`) and a few `std` text conversions are reached
through small trusted wrappers, each documented where it is declared.

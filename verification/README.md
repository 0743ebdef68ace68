# git-workflow-mcp

An MCP server that offers git operations to agents, with the logic verified in Verus.

Each session gets an identifier of its own. A worktree that a session makes is recorded as
its own, and worktrees and branches of other sessions are neither removed nor deleted nor
merged until they are released.

There is one exception. Where the session records cannot be read, nobody is known to own
anything: branches are then deleted and merged for every session, and the list shows every
worktree as untracked. Removing a worktree fails in that case.

## Layout

- `src/` is the verified library.
  - `text` holds text operations with exact contracts, and `protocol` the way in which an
    operation talks to the world: it is a function of the replies so far, and asks for one
    more action until it is done.
  - `domain` holds the types, `infra` the git operations, the session records and the
    settings of the log, `interface` the tools and the modes of the server.
  - `laws` states what holds of the library as a whole.
- `tests/` drives the operations with transcripts and in worlds that are kept in memory.
- `app/` is the program: it performs the actions and speaks the protocol.

## Modes

| `--mode` | Tools |
|---|---|
| `full` (default) | all |
| `read-only` | `session_start`, `worktree_list`, `status`, `diff`, `log` |
| `read-remote` | those, `fetch` and `remote_list` |

# orchd

The rules of a daemon that runs coding agents in git worktrees, as a verified library:
who may ask for what, what a session's record says, which conversation travels with
which branch, when work is parked and put back, what is posted and what is not.

- `src/` is the library. Every function there is checked by Verus against its contract.
  - `text`, `paths`, `ids`: strings, paths and session ids.
  - `model`, `tracker`, `sessions`, `spaces`, `config`: the records.
  - `api`: the requests (`door` is the check in front of them, `talk` the channel between
    a session and you, `rows` the sessions, `archive` and `open` the rest).
  - `spawn`: starting, ending and moving sessions.
  - `relocate`, `bank`, `spare`, `restart`, `managed`: checkouts, parked work, pre-cut
    worktrees, respawns and processes.
  - `story`, `post`, `review_api`, `preview`: reviews, what goes out, and previews.
- `tests/` runs the library.
- `app/` is the daemon around it: HTTP, JSON, the disk, child processes and time.

# airlock

Airlock stands between a developer's repository and its real remote.
Pushes land in a local bare repository; the daemon coalesces them, runs
the repository's workflows (a DAG of jobs, each a list of steps) in
worktrees of that repository, pauses for approval where a step asks for
it, and forwards the refs upstream once a run has passed.

## Layout

- `src/` is the library, verified with Verus. Each module states its
  behaviour in `requires`/`ensures` contracts over spec functions and views:
  - `types`, `workflow`: runs, jobs, steps and how their statuses derive
    from one another; the job graph.
  - `push_coalescer`, `run_queue`, `push`: coalescing rapid pushes,
    superseding overlapping runs, one active run per repository, choosing
    the base of each run, forwarding.
  - `pipeline`, `dag`, `executor`, `runs`, `status`, `sync`: scheduling
    the DAG wave by wave, stage environments and results, approvals,
    resuming, retries, cancellation, reprocessing, and the replies of the
    daemon's handlers.
  - `push_flow`, `patch_session`: processing a coalesced push and applying
    chosen patches, as steps whose outside work the caller performs.
  - `paths`, `service`, `shell`, `provider`, `jj`, `worktree`, `patches`,
    `artifacts`, `cleanup`, `ipc`: the on-disk layout, service files,
    shell and provider detection, jj bookmark sync, patch text, artifact
    listing and cleanup, and request routing.
  - `text`, `ids`: verified string helpers; identifiers and the clock.
  Public proof functions named `law_*` state the properties that hold
  across calls.
- `app/` holds what runs around the library: process and git calls,
  file handling (logs, artifacts, patches, cleanup), service files, the
  per-repository run queue, serde forms of the library's types, and a
  daemon entry point that sets up the directories, cleans up old artifacts
  and drains the push coalescer. It has no socket server and no request
  handlers: those rely on the database and the socket layer, which this
  project does not hold.
- `tests/` exercises the library on concrete values.

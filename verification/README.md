# conductor

A conductor agent explores a codebase, analyses the task when the map of the
code asks for it, decomposes the work into phases of tasks, and runs a team
of musician agents on the tasks in isolated git worktrees. Each phase ends
with its branches merged back and a review; the run ends with a final review
that completes it, sends tasks back or adds tasks. A terminal interface shows
the conductor, the musicians, the tasks and the insights gathered on the way.

## Layout

- `src/` is the library, written in Verus: every function carries a contract
  and is proved against it.
  - `planning`, `analysis`, `orchestra`, `review`, `merge`: the decisions of a
    run, as functions from state and event to the next state and action, and
    the bookkeeping of tasks and phases.
  - `plan_parse`, `json`, `events`, `bridge`: reading what the agents write.
  - `prompts`, `instructions`, `memory`, `task_store`: the texts given to the
    agents and the files a session keeps.
  - `musician`, `rate_limiter`, `token_estimate`, `insights`, `dag`: a
    musician's session, limits, estimates, insights and plan checks.
  - `keys`, `tui`, `columns`: the interface's key handling and layout.
- `app/` is the program around the library: the command line, the agent
  processes, git, the disk and the terminal. It carries out the library's
  decisions and hands back what happened.
- `tests/` runs the library on concrete cases.

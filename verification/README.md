# ANT

ANT is an orchestration kernel for AI agents: goals are planned into task
graphs, the graphs are scheduled over an event bus, and daemons (an
orchestrator, a code analyser, a git actor, skills) carry out the tasks under
supervision, with a terminal dashboard on top.

## Layout

- `src/` is the verified library. Every function states its behaviour in
  `requires`/`ensures`, and Verus proves all of them but four small trusted
  wrappers around outside code (collecting characters into a `String`,
  `str::to_lowercase`, `serde_json::to_string` and
  `regex::Regex::replace_all`), whose contracts are taken as given.
  - `kernel/` — task graphs (validation, topological order, cycle
    detection, statuses), the goal scheduler, knowledge-base filters,
    snapshot comparison.
  - `sys/` — tool policies, daemon supervision (restart policies and
    back-off), task routing in the orchestrator, audit records.
  - `tools/` — the workspace sandbox (path containment, write checks), git
    command lines, agent clients, the HTML text extractor, the skill
    registry and the skill marketplace's routes.
  - `ai/` — provider settings, prompts and plans.
  - `ui/` — themes, the command palette, the graph editor and the
    dashboard state machine (keys, mouse, bus events).
  - `bus.rs`, `cli.rs`, `metrics.rs`, `text.rs`, `path.rs`, `text_map.rs` —
    events, client addresses, metric updates and the text, path and map
    helpers the rest is written with.
- `app/` is the program around it: the event bus, the daemons' I/O loops,
  HTTP requests, the metrics server, the terminal drawing and the `ctl`
  command-line client.
- `tests/` runs the library on concrete values.

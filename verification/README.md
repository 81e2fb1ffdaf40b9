# aws-tui

A terminal session manager for AWS: it lists the shell aliases of an alias
file (SSO logins, SSM port forwards, other commands), starts and stops them,
runs AWS CLI commands with completion, lists EC2 instances and opens SSM
shells on them, and browses ECS and EKS clusters. The same logic serves a
desktop front end (`src/gui`): alias files with groups, AWS config and
credentials files, CLI invocations and their answers, pseudo-terminal plans.

## Layout

- `src/` — the library, verified with Verus. Each public function states in
  its `ensures` what it returns or changes, over spec functions and views.
  - `text`, `assoc`, `json`: characters and strings, association lists,
    a JSON value model (parsing and printing go through `serde_json`).
  - `parser`, `session`, `app`, `terminal`, `instances`, `instance_info`,
    `containers`, `cli_output`: the state of the four tabs and how each
    event and command output changes it.
  - `events`: what each key does, as one function from state and key to new
    state and the action to perform.
  - `screen`: what the screen shows (marks, labels, hints, rows, sizes).
  - `gui`: the desktop front end's logic only: what its commands decide
    and compute. The desktop shell itself (windows, IPC commands, file,
    process and pseudo-terminal I/O) is not part of this crate.
  - `laws`: properties that span several functions, stated and proved.
- `app/` — the terminal program (the only front end built here): reads the alias file, draws with ratatui,
  reads keys with crossterm, and performs the actions the library returns
  (processes, AWS CLI calls, pseudo terminals).
- `tests/` — tests of the library on concrete values.

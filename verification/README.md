# gitpilot

A Git assistant for the daily developer workflow: repository status, branch
summaries, a pre-commit review of staged changes, branch cleanup, an
interactive switcher, history browsing, undo and stash management.

The decisions and computations live in a library verified with Verus:

- `src/git/` — what is computed from a repository's state: diff summaries
  (`process_diff`), status sorting (`repo_status`), branch classification
  (`branch_info`, `list_branch_infos`), commit summaries and log filtering.
- `src/commands/` — the logic of each command: review rules and findings,
  cleanup candidates, `--since` parsing, switch choices, clone spec parsing,
  stash/undo menus, hook installation, and the texts they print.
- `src/display/` — colour styling, relative times and table layout.
- `src/text.rs` — verified string utilities shared by the above.

Each public function states its result in its contract; the properties
that span functions (cleanup never offers protected or current branches,
a log shows only admitted commits in order, the hook update is idempotent,
and so on) are proof functions next to the code they speak of.

`app/` is the command-line program around the library: argument parsing,
reading the repository with git2, prompts, spawning `git`, and printing.
`tests/` exercises the library on concrete values.

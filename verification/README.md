# workflow_manager

The planning and bookkeeping logic of a terminal workflow manager that runs
agent-driven workflows (codebase research and task planning), written in
Verus with its behaviour stated in `requires`/`ensures` contracts.

Layout:

- `src/` — the verified library.
  - `text.rs`: string utilities (trimming, searching, lines, numbers, UTF-8
    lengths and safe shortening, ordering of texts).
  - `yaml_model.rs`, `json_model.rs`: the parts of parsed YAML and JSON
    values the logic reads; parsing goes through `serde_yaml` and
    `serde_json`.
  - `workflow_utils/`: YAML extraction from agent answers, the bookkeeping of
    an agent's answer stream and its sub-agent delegations, batch contexts
    and outcomes.
  - `research/`: the research workflow's configuration, the plan of its
    phases, its prompts, the prompts read back from the prompt writer, and
    the files of a run.
  - `task_planner/`: task types, execution plans (simple batches and the
    dependency-ordered fallback), the prompts of the planning agents, and
    the review of expanded tasks.
  - `runtime.rs`: finding and launching workflows, reading their error
    stream, writing their logs in batches.
  - `executions.rs`: the executions held in memory (registration, status,
    cancellation, exit, clean-up).
  - `ui/`: the lines the terminal interface draws, as styled text.
- `tests/`: tests of the library.
- `app/`: what stays outside the library: drawing with `ratatui`, files and
  processes, serialised forms of the library's types.

What is not here: the workflow manager drives its workflows with agents
through an agent SDK crate and reports progress through the
`workflow_manager_sdk` crate. Neither crate is available to this project, so
there is no entry point, no workflow driver, no agent stream and no process
runtime loop in `app/`: the decisions those parts make (phase plans, prompts,
reading answers, batching, stream bookkeeping, execution states) stand in the
library, and the loops that would call the agents are absent. The database,
workflow discovery and application-state modules are absent too.

# Envoy

Envoy coordinates parallel work on GitHub issues across Git worktrees. An issue is *claimed*: a
claim generation records its branch, its worktree and the exact commit that it starts from. Claims
are compared by what they change, checked by `doctor`, and released by a marker that leaves the
branch and the worktree alone.

The crate `gh_envoy` under `src/` is the library, written in Verus: every function states in its
contract what it returns, and Verus proves that it does. `app/` is the `gh-envoy` program around
it: arguments, files, processes and the clock.

## Layout

| Modules | What they hold |
| --- | --- |
| `text`, `path`, `id`, `time`, `json` | texts, paths, identifiers, instants and JSON values |
| `model`, `record`, `store`, `filing` | records, their rules, how they are written, filed and read back |
| `command`, `git`, `discovery`, `github`, `answer`, `porcelain`, `base` | what Git and GitHub are asked, and what their answers mean |
| `config` | the configuration and its built-in risks |
| `lifecycle`, `claiming`, `transaction` | how claims are made, resumed, rolled back and released |
| `observation`, `conflict`, `mutuality`, `stack` | what claims change, where changes meet, what claims build on and wait for |
| `doctor`, `diagnosis`, `drift`, `recovery`, `evidence`, `examination`, `redaction` | doctor reports |
| `status`, `list`, `document`, `printing`, `terminal`, `cli`, `exit` | reports for people and for programs |
| `run`, `execution` | runs of agents in the worktree of a claim |

Paths are texts with `/` between their segments, as on Unix. What only the machine can tell, such
as where a path leads to, is handed to the library as plain values; commands are run through the
`CommandRunner` that the caller brings. A runner tells which commands it permits: what a function
requires of it bounds the commands that the function runs, and what it ensures says what is made of
each answer. Doctor reports and the status run only commands that observe.

What outside crates compute stands behind small wrappers with a contract of their own: UUIDs
(`id`), RFC 3339 (`time`), globs (`conflict`) and JSON notation (`json`).

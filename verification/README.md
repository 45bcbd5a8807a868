# deepcode

The logic of a multi-provider coding assistant for the terminal, verified with Verus.

`src/` is the library. Its functions carry contracts over mathematical models of their data; what
the assistant promises as a whole stands in the public proof functions whose names begin with
`law_`.

| Part | Modules |
| --- | --- |
| The agent | `agent_loop`, `turn_executor`, `turn_laws`, `plan_executor`, `plan_review`, `permission_handler`, `request`, `state`, `guard`, `validation` |
| Streamed responses | `stream`, `llm_response` |
| Subagents | `subagent`, `subagent_run` |
| Sessions and workspaces | `session`, `workspace_trust`, `paths` |
| Commands | `setup`, `listing`, `run` |
| The terminal client | `ui` and `keys` |
| Shared vocabulary | `types`, `event`, `json`, `text`, `words`, `ids` |

The agent, the plan review, the one-shot run and the terminal client are state machines. A machine
says what it waits for; its surroundings do that and report back; the contract of its step says
exactly which state and which events follow. No machine reads a clock, a file or a channel itself.

Calls into `serde_json`, `uuid`, `chrono`, `unicode-width`, `pulldown-cmark` and `syntect`, and those
into the path functions of `std`, whose results depend on the machine, stand
behind small trusted functions whose doc comments say what is taken on trust.

`app/` is ordinary Rust around the library: the command line, files, channels, tasks and drawing.
Model providers, tools and the permission policy are handed to it through the traits in
`app/host.rs`.

`tests/` runs the library on concrete values.

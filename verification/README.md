# AXP

A verified runtime for the Agent Execution Protocol: an agent opens a session
over a workspace, holds explicit capability grants, discovers tools through a
compact index, and runs jobs whose logs can be replayed and followed from any
position.

The library under `src/` is written in Verus. It holds what the runtime decides:

| Module | What it holds |
| --- | --- |
| `capability`, `auth`, `workspace`, `path` | grants and what they permit, session tokens, workspace confinement |
| `provider`, `mcp`, `builtins`, `registry`, `exposure`, `catalog_provider` | capability providers and the catalog over all of them |
| `session`, `job` | sessions with their audit log; jobs, their logs in memory and on file, how they start, drain, stream and end |
| `sandbox` | policies, filesystem rules and the syscall filter of a confined child |
| `codemode` | running WebAssembly components under fuel and a deadline |
| `transport`, `client`, `cli` | JSON-RPC methods, the event stream, the client's side of both, command-line decisions |
| `proto`, `text`, `octets`, `textmap`, `time`, `json`, `error` | protocol types and the vocabulary that the others share |

Whatever touches the machine (processes, pipes, sockets, files, the clock) is in
`app/`, the `axp` program: it performs what the library asks for and hands the
outcomes back. Calls into other crates that only compute stay in the library,
behind small wrappers whose contracts say what is relied on.

## Running

```bash
axp serve --addr 127.0.0.1:7300
axp demo runtime --addr http://127.0.0.1:7300
```

`axp serve` mounts one static tool with `--mcp-provider`, `--mcp-tool`,
`--mcp-desc` and `--mcp-bridge` together, or the tools of a JSON file with
`--mcp-config`.

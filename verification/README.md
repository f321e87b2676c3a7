# mcagent

Isolated agent workspaces: WASI tools compiled from single-file Rust sources
and run in a sandbox, a copy-on-write copy of the project per agent, and
GitButler branches, served over MCP.

- `src/` is the verified library (Verus). It holds the decisions and the
  parsing: frontmatter and tool metadata, the compile cache key, the sandbox
  a tool's capabilities earn it (network and outgoing HTTP only when
  granted), which files count as tools, the steps of a tool run, what an
  agent's copy takes from the project and how it differs from it, keeping
  file access inside an agent's copy (paths resolved by their text), the
  plan that commits an agent's changes to its own branch, GitButler command
  lines and outputs, the agent table with its laws, and the texts the server
  answers with.
- `app/` is the program around it: the MCP server (rmcp, tokio), file system
  walks and copies, `cargo` and `but` processes, and wasmtime. It performs
  the steps the library plans and hands back what they gave.
- `tests/` runs the library on concrete inputs.

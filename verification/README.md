# local-code

A terminal coding agent for local and local-network OpenAI-compatible model
servers (llama.cpp, vLLM, LM Studio, Ollama): connections, a permission gate
in front of every tool call, MCP servers, flat-file memory, skills and plugin
marketplaces, saved sessions, and a loopback server for artifacts.

## Layout

- `src/` is the library, verified with Verus. Every decision the program
  takes is made here, stated in `requires`/`ensures` over mathematical
  models (`Seq`, `Map`, `int`) and proved:
  - `config`: paths, connections, the layering of user- and project-level
    files, `${VAR}`/`${keyring:name}` references, MCP server entries;
  - `permissions`: the permission check (tiers, allow/deny rules, session approvals) as
    a state machine, and the terminal prompt's text;
  - `agent`: model planning, the plaintext-key guard, the built-in tools'
    logic (`read_file` limits, unique `edit_file` replacement, `grep`,
    `glob`), the `skill` tool;
  - `memory`: the buffer, daily rollover, recent/archive rollup and search;
  - `session`: per-project session directories and the resume listing;
  - `marketplace`, `skills`, `cli`: specs, git URLs, catalogs, plugin
    install/update planning, and what every subcommand prints;
  - `artifacts`: request routing, path resolution and percent-coding of the
    artifact server;
  - `mcp`: tool namespacing and the stdio transport's framing;
  - `text`, `sorting`, `url`, `fsutil`: the string, ordering and naming
    helpers these rest on.
  Calls into `regex`, `chrono`, `reqwest`'s URL parser and std's hasher
  stand behind small trusted wrappers whose contracts name what they
  return.
- `app/` is the `local-code` command: argument parsing, files, the OS
  keyring, the network, the model client and the terminal, each handing
  plain values to the library and acting on what it decides.
- `tests/` runs the library on concrete values.

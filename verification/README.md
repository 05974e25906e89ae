# Confluence Connect

A connector between a desktop AI assistant and a self-hosted Confluence server: an MCP
server with tools to search, read and list Confluence content, and a configurator that
installs the server and writes the assistant's configuration.

The logic is a library verified with Verus (`src/`); the program around it (`app/`)
does the network, file, process and clipboard work.

- `src/text.rs` — text operations with their specifications (trimming, splitting,
  replacing, decimal rendering, UTF-8 lengths).
- `src/outside.rs` — the trusted items: contracts for the calls into `url`,
  `urlencoding`, `base64`, `chrono`, `serde_json`, `reqwest`'s status table and header
  check, and a few std functions.
- `src/confluence_core/` — Confluence URL parsing, settings from the environment, the
  REST requests and the retry policy, error texts, proxy detection and PAC choice,
  HTML-to-text and truncation.
- `src/server/` — the MCP tools' texts, the handler's decisions and the recorder's
  truncation policy.
- `src/configurator/` — the assistant's configuration entry and document (reading the
  entry, writing it while keeping every other server, taking it out), install folders,
  the wizard's and monitor's messages, usage statistics and tips.
- `tests/` — tests of the library's behaviour on concrete values.
- `app/` — the MCP server over stdio (default) and the configurator's commands
  (`configurator <command>`, JSON on standard input and output).

The assistant's configuration file is taken from `ASSISTANT_CONFIG_PATH`, its log folder
from `ASSISTANT_LOG_DIR`.

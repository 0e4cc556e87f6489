# codex_connector_core

The logic behind hosted connectors and their tools, verified with Verus.

- `connector_runtime`, `connector_runtime_laws`: the runtime snapshot that sessions
  share, its activations and fetches.
- `tool_exposure`, `tool_info`: which tools the model gets to see.
- `mcp_diagnostics`, `tool_identity`, `tool_search_recorder`, `tool_search_laws`: the
  bounded diagnostics of the tool search.
- `apps_installed`, `apps_list`, `app_info`, `rpc_error`: the requests on apps.
- `resolution_state`: the diagnostics of OAuth store resolution.
- `command_migration`, `command_document`, `command_names`, `agent_terms`: the migration
  of another agent's commands into skills.
- `config_write`: writes of the model provider.
- `text`, `decimal`, `digest`, `order`, `text_map`, `metrics`: what the others build on.

`app/` holds the files, locks, tasks and serialized forms around the library. The
services of the surrounding application are traits there.

Three things are trusted: what `String::push` does, and that a SHA-1 digest and the
mapping in a YAML text depend on their input alone.

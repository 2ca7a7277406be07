# vol_llm

Verified core of the vol LLM agent tooling: the web front end's state and protocol
logic, the YAML agent loader, and the wiki loader and injector. The functions in
`src/` are proved by Verus against their contracts, except a few small
`external_body` wrappers around std and outside crates (`str::contains`,
`str::to_lowercase`, `str::lines`, `String::push`, `serde_json::from_str` with its
value conversion, `dirs::home_dir`), whose contracts are trusted. `app/` holds the glue that talks to
the socket, the file system, the clock and the serde formats.

Layout of `src/`:

- `json`, `text`, `paths`: JSON values, string and path helpers.
- `rpc`: the JSON-RPC client state (request ids, pending replies, send queue),
  request frames and reply decoding; the data-plane connection pool.
- `connection`: connection status, the reconnect schedule, session restore.
- `events`, `conversation`, `tools`, `sessions`: UI events and the reducers of the
  conversation timeline and tool history; persisted sessions.
- `cache`, `panel`, `capabilities`, `mcp_view`, `log_view`, `workspace`, `form`:
  per-node caches and the panels built on them.
- `graph`, `graph_view`: the task dependency layout and its geometry.
- `overlay`, `labels`: the overlay animation state machine and display rules.
- `yaml_agent`: agent definitions, tool and plugin registration, discovery.
- `wiki`: wiki pages, the loader, the injector and the compression prompt.

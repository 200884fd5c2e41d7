# walrus

The decision logic of the Walrus agent daemon, written in Verus and proved
against its contracts.

## Layout

- `src/` — the verified library.
  - `tasks`, `task_tools`: the task registry (concurrency limit, queueing,
    blocking on user questions, completion) and the decisions of the task
    tools (delegation, awaiting, reply collection). Notifications owed to
    subscribers are queued as effects for the caller to deliver.
  - `skills`, `frontmatter`: the skill registry (tag and trigger matching,
    ranking by tier and priority, prompt enrichment) and the splitting of
    `SKILL.md` files into frontmatter and body.
  - `memory`, `graph`, `fs_memory`, `toml_tree`: prompt enrichment from
    memory, query text and escaping for the graph store, the key scheme of
    the file-backed store, and reading, storing and removing nested keys in
    TOML documents edited in place.
  - `protocol`, `stream_cut`, `cron`: client/server messages, routing,
    typed replies, and cutting reply streams after their terminal message.
  - `anthropic`, `sse`, `filter`, `local`, `chunk`: converting provider
    output to the unified completion format, SSE framing, and hiding raw
    tool-call tags in local-model streams.
  - `mcp`, `ask_user`, `hub`, `config`: MCP server bookkeeping and tool
    replies, `ask_user` replies, package names, the MCP servers a package
    adds to the configuration, configuration defaults, and names filled
    from their keys.
  - `text`, `split`, `bytes`: string, splitting and UTF-8 helpers.
- `tests/` — tests of the library on concrete values.
- `app/` — the I/O around the library: reading skill, memory and
  configuration files, installing hub packages, decoding stream events, delivering task
  notifications and waiting on tasks.

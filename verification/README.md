# masday_mcp

The masday MCP server: a JSON-RPC 2.0 server over stdio that keeps agent
workflows, tasks, plans, memories, sessions and reviews in a local SQLite
database.

The rules of the server are a Verus-verified library (`src/`); the program
around it (`app/`) reads and writes the database, the files and the network
and hands the library plain values.

## Layout

- `src/` — the verified library:
  - `workflow`, `lifecycle`, `policy`: the workflow state machine, the gates
    every tool passes before it changes a workflow or a task, and the
    completion policy.
  - `registry`, `handler`, `schema`: the tool registry (sorted, one tool per
    name), the protocol decisions of the handler, and the tool input schemas.
  - `code_index`, `lines`, `fingerprint`, `features`, `search`: chunking source
    files, content hashes and fingerprints, the token counts behind the local
    embeddings, and the code-search request path.
  - `sync`, `records`, `queries`, `capability`, `scaffold`, `agents`: what the
    local state files, stored records, SQL queries, capability registry entries
    and scaffolded files hold, and how a task is matched to an agent.
  - `config`, `client`, `database`, `sqlite_store`, `readiness`, `diagnostics`,
    `timestamp`, `json`, `text`: settings, the API client's texts, the database
    choices, readiness checks, the embedding report, stored timestamps, JSON
    strings and text helpers.
- `app/` — the server program: the stdio loop, the tools' database and file
  work, HTTP requests, and the floating-point embedding arithmetic.
- `tests/` — tests of the library.

Each library function states its result in its `ensures` clause; proof
functions named `lemma_*` state the properties that span several functions
(for example that the path to `DONE` only takes legal transitions, or that a
registered tool is found again by name).

# contextX

An MCP server (Streamable HTTP) that answers web-search questions through a
Grok-compatible upstream, at three levels: standard, deep and ultra.

- `src/` is the verified library:
  - `text` – whitespace trimming, prefixes and the character view of strings;
  - `config` – the start-up settings (`AppConfig`), the host list and the
    bearer-token setting;
  - `server` – checking an `Authorization: Bearer` header in constant time;
  - `json` – the parsed JSON document (`Json`) and its lookups;
  - `grok` – the request payloads, the search levels, and the reading of
    upstream replies, streamed or not;
  - `mcp` – query validation and tool replies.
- `app/` holds the program: reading the environment, the HTTP client, the
  MCP tool router and the HTTP server.
- `tests/` exercises the library.

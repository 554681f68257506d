# mcp_gateway

The core of a gateway between language models and MCP tool servers, verified
with Verus.

- `src/` is the library: configuration, the pool of connections, the inventory
  of tools, sessions, approval and retries, the loop of responses and calls, and
  the rewriting of streams. Every function states in its contract what it
  returns; functions named `law_*` state what holds across functions.
- `tests/` runs the library on concrete values.
- `app/` connects the library to the outside: configuration files, MCP
  transports, requests to models and streams to clients. It keeps what only
  makes sense there, such as the order of concurrent calls, the reading of
  numbers from text and the decoding of received bytes.

JSON text, HTTP headers, the LRU cache, the concurrent map and text hashing come
from `serde_json`, `reqwest`, `lru`, `dashmap` and the standard library. What is
relied on there is stated at each call.

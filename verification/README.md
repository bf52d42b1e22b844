# blaniel_npc

The core of an NPC runtime for games, written in Verus: every function
under `src/` carries a contract that Verus proves.

- `src/` — the verified library: cache policies and keys, the navigation
  mesh and A* path search, movement commands read from model replies,
  canned dialogue and templates, request routing, the request queue,
  request and usage metrics, provider health (rate limiting, circuit
  breaking), the provider registry and its failover orders, the retry
  policy, provider request formats, system prompts, administrative checks,
  webhook authentication, and the command-line tool's input handling.
  `src/laws.rs` states properties that span several calls.
- `tests/` — tests run against the compiled library.
- `app/` — ordinary Rust around the library: JSON shapes, access-token
  checks, floating-point measurements, configuration from the environment,
  HTTP clients for model providers and the web backend, and the request
  queue's background task.

Calls into outside crates (URL parsing, LRU caches, priority queues,
random shuffles, clocks, identifiers, JSON, HMAC, hex, JWT) are made from
`src/` through small trusted wrappers whose contracts say what the crates
document.

# edge-agent

An agent for edge nodes that reach each other directly over QUIC, fall back to
a tunnel where they cannot, and serve files with the help of a CDN.

- `src/` is the library: what the agent decides, written in Verus. Each
  function states in its contract what it returns, and is proved to do so; the
  public `proof fn`s state what holds across functions. Calls into other crates
  stand behind small functions marked `external_body`, each with what is
  trusted of the call.
- `tests/` runs the library on concrete values, with the other crates linked.
- `app/` is the program: sockets, files, the child process, timers, and the
  JSON and TOML shapes of the library's types.

| Module | What it decides |
|---|---|
| `cdn` | rules of the manifest, which rule covers a path, who is local, entity tags, reloading |
| `http` | redirect or local file, conditional requests, notifications, health |
| `holepunch` | when to punch and what becomes of a peer, retries, heartbeat, STUN |
| `registry` | connection states, addresses of the virtual network, pending retries |
| `tun` | where packets go, how the device frames them |
| `tunnel` | supervising the tunnel's process, its readiness and its URL |
| `auth`, `worker` | tokens, registration, requests to the worker |
| `config` | defaults, file, environment, validation |
| `text`, `paths`, `windows`, `net`, `json`, `clock` | texts, paths and their Windows form, addresses, JSON members, clock readings |

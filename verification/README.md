# waspedge

A web server extensible with signed WebAssembly plugins. The library in `src/`
holds the server's logic, verified with Verus:

- `router`: which route serves a request (the first whose path is a prefix of
  the request's), whether the cache answers it, where it is forwarded, which
  plugins it triggers, and the 404 answer.
- `cache`: the response cache, a `dashmap::DashMap` from paths to bodies.
- `config`: the configuration types, the plugins the routes require and the
  listeners to start.
- `plugins` and `json`: reading the trusted-keys file with `serde_json`, the
  step-by-step check of a plugin's signature against the listed keys, and the
  rule that admits a plugin.
- `reload`: the configuration watcher's steps (hot reload of the configuration
  and plugins).
- `websocket`: what the echo endpoint does with each event of a connection.
- `listen`: the address a listener binds to.
- `tls`: the QUIC listener's certificate chain and key, parsed from PEM with
  `rustls_pemfile`.
- `text`: byte-wise prefix comparison of texts.

`app/` is the program around it: reading `config.yaml`, the HTTP, QUIC and
WebSocket listeners, running `wasmsign2`, loading and running plugins with
wasmtime, and watching the configuration file.

# nju-cli-web-service

A web agent service for `nju-cli`: every anonymous browser session gets a
sandbox (an LXC instance, a Docker container, or a local process in
development) that runs a Codex app-server, and the service relays the
browser's WebSocket to it.

The decisions of the service are a Verus-verified library under `src/`:

- `config.rs` – the configuration and its validation (`Config::normalized`).
- `cookie.rs` – session ids, reading the session cookie from a `Cookie`
  header, and the `Set-Cookie` value, with the proof that a cookie the service
  sets is read back.
- `sandbox.rs` – sandbox names, the Codex `config.toml`, the `lxc` commands,
  and what is read back from `lxc list`.
- `docker.rs` – the container of a session, its create request, the host
  port read back from an inspection, and HTTP/1.0 framing for the Docker
  Engine's Unix socket.
- `provision.rs` – bringing up a sandbox as a state machine
  (`SandboxManager::ensure`, `SandboxManager::advance`) and the wait for the
  app-server's TCP port.
- `session.rs` – which session a request belongs to, the registry of
  sandboxes, error chains, and the WebSocket relay as a state machine.
  The registry keeps its entries in a `Vec` of (session id, record) pairs,
  a later entry overriding an earlier one, and is specified as a `Map` from
  session ids to records. vstd specifies `HashMap` and `BTreeMap` contents
  only for keys it can relate to their views, such as integers; with `String`
  keys even the size after one insertion is not provable, so a map keyed by
  session id could not carry the read-after-write contract.
- `text.rs` – character-level helpers.

`app/` is the program around it: command-line parsing, the HTTP server,
processes, files, sockets and timers. It performs the actions the library
decides and reports back what happened.

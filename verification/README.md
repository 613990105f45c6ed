# tunnel_plugins

Building blocks of a set of tunnel example programs, with their behaviour
stated as contracts and proved with Verus.

- `src/` — the verified library: command-line flag lookup and the options the
  programs derive from it, the request plugins (request counting with a
  response timing header, path blocking, header filtering, client-address blocking), the TLS settings of
  the TLS example, the request a plugin chain is run on, and the per-message decision of the WebSocket echo server.
  HTTP header maps of the `http` crate are used directly; `src/headers.rs`
  holds the contracts assumed of the `http` calls.
- `tests/` — tests of the library on concrete values.
- `app/` — the programs themselves: argument reading, sockets, the tunnel
  client and server, and the plugin registry, calling into the library. Run
  one by naming it first: `app <example> [its arguments]`.

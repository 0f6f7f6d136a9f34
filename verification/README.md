# http_proxy

The rules of a local HTTP proxy that forwards requests to an HTTPS server, as a
library that Verus proves, and the program around it.

- `src/cli.rs`: the command line, the servers it asks for, and how their requests
  are made.
- `src/target.rs`, `src/target_laws.rs`: the target's base URL, and the URLs that
  plain and WebSocket requests get there.
- `src/headers.rs`: hop-by-hop fields, `Connection` lists, WebSocket requests.
- `src/forward.rs`, `src/forward_laws.rs`: which header fields travel on with
  requests, responses and WebSocket handshakes.
- `src/proxy.rs`: what becomes of a request.
- `src/tunnel.rs`, `src/tunnel_laws.rs`: the WebSocket tunnel as a state machine.
- `src/lifecycle.rs`: waiting for a port in use, and shutting down.
- `src/text.rs`: operations on text.
- `app/`: the program: sockets, HTTP client and server, signals, log lines.
- `tests/`: the library on concrete values.

```
http_proxy --target https://example.com --listen 127.0.0.1:18080

GET http://127.0.0.1:18080/api/test?q=1
      ->  GET https://example.com/api/test?q=1
```

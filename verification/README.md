# proxy_tunnels

CONNECT tunnels over authenticated HTTP/3, with no TCP or direct fallback. The decisions that a
tunnel makes are a verified library; the sockets, tasks and timers stand around it.

- `src/` is the library, verified with Verus.
  - `authority`, `credentials`, `config`: which inputs are accepted, and what they become.
  - `provider`: the TLS and QUIC settings of every connection to a proxy.
  - `sessions`, `bootstrap`, `dial`: which session a dial uses, how a new one is made, and what the
    proxy's answer means.
  - `read`, `write`, `pump`, `pipe`: how a stream reads, writes, flushes and ends, and what its
    write side and its writer task guarantee together.
  - `lifecycle`: how streams share the places of a provider, and what a shutdown leaves.
  - `udp`: buffer sizes of UDP sockets.
  - `outside`: what the library takes on trust of other crates and of the standard library.
- `tests/` runs the library with those crates.
- `app/` performs the steps: it drives QUIC connections and HTTP/3 streams with the library's
  stages and actions, and implements `AsyncRead` and `AsyncWrite`.

## HTTP/3 wire form

RFC 9114, section 4.4, has an ordinary CONNECT request go without `:scheme` and `:path`. The request
that the library builds has neither. The published h3 0.0.8, which `app/` is built on here, adds both
when it encodes the request, so a deployment needs an h3 that leaves them out for ordinary CONNECT.

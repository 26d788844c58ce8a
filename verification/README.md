# Lynx

A room-based TCP chat server, its wire protocol and its load tester, with the
protocol, the rate limiter and the message-routing rules written in Verus and
proved against their contracts.

## Layout

- `src/` — the verified library (`lynx`):
  - `protocol.rs`: `Message`, `Response`, their bincode payloads and the
    length-prefixed frames (`encode_frame`, `decode_frame`,
    `try_extract_frame`, ...), with round-trip and accumulator laws;
  - `wire.rs`, `codec.rs`, `text.rs`: the byte-level model of bincode's
    encoding, the calls into bincode, decimal rendering;
  - `rate_limiter.rs`: the per-user token bucket, in thousandths of a token;
  - `clients.rs`, `server.rs`: the registry of users (a `DashMap`) and what
    each client message does to it (`process_message`), with laws on
    registration, rooms, rate limiting and slow clients;
  - `config.rs`, `metrics.rs`: defaults, addresses, the metric tables and the
    readiness rule;
  - `load.rs`: the load tester's traffic model.
- `app/` — the programs around it: the server's sockets, tasks and HTTP
  endpoints, configuration loading, and the load tester (`lynx load ...`).
- `tests/` — tests of the library on concrete values.

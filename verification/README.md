# echod

A line-echo service for Unix that replaces itself without dropping a connection.

`echod` runs as a small family of processes. A supervisor owns every listening socket and keeps
four workers alive: a plain TCP acceptor, a TLS acceptor, a processor that holds the echo sessions,
and a scanner that looks up who is behind a connection. Each of them, the supervisor too, can be
upgraded in place: a successor is started, inherits the sockets and the sessions, reports that it
is ready, and only then does the old process leave. If the successor does not report, nothing has
changed.

## Layout

- `src/` is the library: the rules of the service as functions and state machines with contracts,
  proved with Verus. It touches the outside world only through a few small wrappers, each of which
  says what is taken on trust.
- `app/` is the program around it: sockets, files, signals, processes, TLS and the async runtime.
  It asks the library what to do, does it, and tells the library what came of it.
- `tests/` runs the library on concrete values.

## Where to start reading

| What | Where |
| --- | --- |
| A session never loses or repeats a byte, across any number of handovers | `src/session.rs`, `src/lines.rs` |
| What an upgrade hands over, and how it commits or rolls back | `src/upgrade.rs`, `src/handoff.rs`, `src/processor.rs` |
| The walk over the roles in a rolling upgrade | `src/rolling.rs` |
| Keeping a worker running, and recognising its successor | `src/supervise.rs`, `src/watchdog.rs`, `src/link.rs` |
| The supervisor's own replacement | `src/self_upgrade.rs`, `src/systemd.rs`, `src/grandparent.rs` |
| Who is let in, how fast and how many | `src/limits.rs`, `src/auth.rs`, `src/acceptor.rs` |
| Certificate and key, and draining live TLS sessions | `src/tls_cert.rs`, `src/tls_drain.rs` |
| Privileges and the system-call filter | `src/security.rs`, `src/syscalls.rs` |
| What operators see | `src/admin.rs`, `src/health.rs`, `src/metrics.rs` |

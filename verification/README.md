# abacus

Abacus RTS: a real-time coordination primitive. An interlock is three `u64`
words in shared memory (open_count, closed_count, expiration_ns); a daemon
hands interlocks out by name over a Unix socket, runs a 1 ms loop that
reaps expired interlocks and wakes the waits whose condition holds, and
publishes a clock interlock. The client SDK builds waits (counter, timer,
cron, barrier, race) on futexes over those words.

## Layout

- `src/` — the library, verified with Verus:
  - `wire.rs` — the framed binary protocol: encoders and decoders with their
    byte-level meaning as spec functions; `wire_roundtrip.rs` proves that
    decoding an encoded request or response gives it back.
  - `registry.rs` — the daemon's registry: create validation, attach by
    name, and the reap-and-wake pass over a snapshot of the interlocks'
    words, with the laws the daemon keeps.
  - `daemon.rs` — what the daemon answers to each request, and the
    arithmetic of its loop.
  - `interlock.rs`, `clock.rs` — expiration arming, reapability, the
    terminal marker, time conversions.
  - `types.rs`, `waits.rs` — interlock states, wake outcomes and the
    decisions of every SDK wait loop.
  - `client.rs` — the SDK's requests and how it reads the daemon's answers.
  - `error.rs` — the error vocabulary and its messages.
- `app/` — the daemon binary and the SDK handles: system calls, shared
  memory, sockets and descriptor passing, threads, the event loop. It calls
  the library for every decision.
- `tests/` — tests of the library on concrete values.

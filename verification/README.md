# rx11

Remote X11 forwarding: a relay server runs next to the X11 programs, a client runs next
to the X server, and the two talk a small framed protocol over TCP or an SSH tunnel.

The library in `src/` holds the protocol and every decision of both sides, with their
contracts proved by Verus:

- `codec`, `text`, `types`, `error` — big-endian integers, decimal and hexadecimal text,
  the identifiers of the protocol and their checks, the errors.
- `protocol` — message types, the control messages, the binary payloads, frames (`frame`),
  typed messages (`message`), and both sides of the handshake (`handshake`). A control
  frame carries its message as JSON bytes; `app/` turns those bytes into messages and back.
- `transport` — cutting a byte stream into frames, with resynchronisation after invalid
  bytes and a bounded buffer.
- `compress`, `incremental` — compression with the negotiated algorithm, and incremental
  updates against the data sent before.
- `session` — the server's session table: displays, owners, X11 connections, grace periods.
- `relay`, `client`, `tunnel` — what the server and the client do with each message and
  event, reconnection delays, and the arguments of the SSH tunnel.
- `auth`, `stats`, `config` — tokens and cookies, connection statistics, defaults.

`app/` is the `rx11` command around it: sockets, tasks, timers, processes, JSON and the
command line. `tests/` exercises the library.

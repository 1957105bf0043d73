# HyprConnect

Device continuity between a phone and a Linux desktop: discovery over
mDNS, a Noise_XX encrypted channel, pairing confirmed by a six-digit code,
and JSON packets (ping, battery) over the channel.

`src/` is the protocol's logic, verified with Verus:

- `pairing` — the pairing code (SHA-256 over both static keys, smaller key
  first) and the one-pairing-at-a-time bookkeeping of pending pairings.
- `discovery` — the registry of discovered peers and the dialer that decides,
  per mDNS announcement, whether to record, yield (tie-break on device id),
  wait for an address or dial.
- `trust`, `daemon::trust` — the trust stores (by static key; by device id
  pinned to a certificate).
- `identity`, `daemon::cert` — device identities and how they are saved.
- `noise` — frames, the XX handshake's message order, sealing and opening.
- `packet`, `json`, `features`, `session`, `protocol` — packets, their JSON
  bodies, ping and battery, the session's replies, wire lines.
- `lib.rs` — the device list, pairing requests, the API's errors.

`app/` is the daemon: sockets, mDNS, D-Bus, files, terminal and TLS, around
the library. `tests/` exercise the library on concrete values.

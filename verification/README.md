# kvm-rs

Share one machine's keyboard, mouse, clipboard, files and network with
another over TLS: a server captures input and forwards it to paired
clients; clients inject it, sync the clipboard, send files and may use the
server's SOCKS5 relay.

## Layout

- `src/` — the library, verified with Verus: message framing and pairing
  proofs (`protocol`), SHA-256 over whole or streamed bytes (`crypto`), address parsing (`addr`), key codes (`keys`), hotkeys
  (`hotkey`), the capture state machine (`capture`), the server's handshake,
  pairing and message decisions (`server_session`, `rate_limit`,
  `server_config`), the SOCKS5 negotiation (`socks5`), file transfer on both
  ends (`file_receive`, `file_send`), the client's connection decisions,
  configuration and injection (`client_session`, `client_config`, `inject`),
  certificate pinning (`tls`), clipboard echo suppression (`clipboard`),
  mDNS records (`discovery`), screen edges (`display`) and the control
  panel's state (`ui_state`). Public functions state their results in their
  contracts, except where a result rests on something the library cannot
  see (the shared forwarding flag, random numbers, the clock, and how the
  platform reads unusual paths); their doc comments say so. The properties
  that span several calls are proof functions named `lemma_*`.
- `app/` — the program around it: sockets, TLS, files, the OS input hook and
  injector, the clipboard, mDNS, serialization and the command line
  (`kvm-rs server`, `kvm-rs client`, `kvm-rs panel`).
- `tests/` — tests of the library on concrete values.

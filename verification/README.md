# http_bridge

A SOCKS5 tunnel carried over HTTP polling, with its decisions verified by Verus.

The client end is a local SOCKS5 proxy: each connection becomes a session of an HTTP
relay. The server end lists the relay's sessions, connects to their targets and moves
the bytes. Both ends only need HTTP connectivity to the relay.

- `src/` is the verified library. Every task of both ends is a state machine that says
  what it waits for and is told what happened; `src/tunnel.rs` and
  `src/client/dialogue.rs` state what the parts give together.
- `app/` performs the actions: sockets, HTTP requests, JSON, timers and channels.
- `tests/` runs the library on concrete values.

The library trusts `base64`'s encoder and decoder (`src/codec.rs`) and the standard
library's `String::from_utf8` (`src/client/socks5.rs`), and Verus's own library `vstd`
for vectors, strings and the set of running sessions (`src/server/sessions.rs`); all else
in it is proved.

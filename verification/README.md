# bitcord_core

The core of a peer-to-peer community chat node, verified with Verus.

Nodes talk to each other over QUIC. A community is a signed manifest that its
creator keeps; each of its channels has a symmetric key that the creator wraps
for every member. Messages are encrypted with the channel key and signed by
their author. Direct messages are sealed to the recipient's X25519 key and may
wait in a mailbox.

Only the creator's key signs for a community, and that key never changes. Seed
nodes are dialled only with a pinned certificate fingerprint; they relay what
they cannot read and are never handed a channel key.

## Layout

- `src/` holds every decision as a function with a contract. Handlers take the
  application state and a request or an event, and return the new state together
  with a list of effects. Nothing in it opens a socket or a file.
  - `crypto`, `identity`: envelopes, key wrapping, certificates, key files.
  - `model`, `wire`: ids, manifests, memberships, messages and their encodings.
  - `state`, `table`, `lists`, `text`, `bytes`, `time`: data structures.
  - `api`: the application state, the commands of the local user
    (`rpc_server`) and the handlers of network events (`event_processor`).
  - `network`, `dht`: connections, discovery, address finding, routing walks.
  - `node`: the record a hosting node keeps of a community.
- `tests/` runs the library with the real cryptography.
- `app/` is ordinary Rust around it: the JSON-RPC server, the QUIC transport,
  files and timers. It performs the effects that `src/` decides on.

Cryptographic routines, the binary codec and the clock come from outside crates.
Each is called from one small function whose contract says what is taken for
granted about it.

# fastlink

A peer-to-peer networking library whose logic is verified with Verus: the
Mother protocol (message headers, connection state machine, scheduler,
handshake), cryptography around audited crates (hashing, key derivation,
X25519, Ed25519, AEAD ciphers, replay protection, key rotation), NAT
traversal (STUN per RFC 5389, ICE candidates and checks, port prediction,
strategy selection, reliable UDP), a Kademlia DHT, P2P framing, routing and
discovery, the chat/games/server/swift/aztec protocols, and a network
emulator's per-packet decisions.

Layout:

- `src/` — the verified library. Each public function states its behaviour in
  `requires`/`ensures`; laws that relate several functions are public proof
  functions next to them. Calls into outside crates go through small trusted
  wrappers whose doc comments say what is assumed.
- `tests/` — tests run against the compiled library with the real outside
  crates.
- `app/` — the command-line program and everything that does I/O: sockets,
  files, async tasks, logging, serialization, and the floating-point metrics.

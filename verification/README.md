# bitchat

The core of a peer-to-peer chat, verified with Verus.

- `src/noise_encryption` is the Noise XX handshake, the ciphers that it leaves behind, the session
  with one peer and the table of all sessions. The two sides of a handshake are shown to agree on
  every key as long as the messages that they write arrive unchanged.
- `src/encryption` is the service that encrypts for peers: through a Noise session where one is
  established, and else under a secret that both sides derive from each other's public keys. Two
  services that have exchanged their keys are shown to decrypt what the other one encrypts, and a
  service to encrypt for a peer whenever it has a key for it.
- `src/terminal_ux` is what the terminal shows: the open conversations, their numbers and lists,
  messages, and Cashu tokens in messages.
- `src/cashu_wallet` holds the decisions of the Cashu wallet: what a command means, which mint pays
  or mints, what is deleted and what is reported.
- `src/primitives.rs` is the boundary to the cryptographic crates. Each function there names the
  function that it calls and states what is believed of it. Calls into other crates for the clock,
  the wallet and the tokens stand next to the code that needs them.

Secrets and public keys are byte arrays. Where an operation draws random bytes or reads the clock,
there is a second one beside it, ending in `_with` or `_at`, that takes them as arguments and has
an exact contract; the first one says that some bytes and some time were used.

`app/` is ordinary Rust around the library: locks for sharing the state between threads, printing,
and the wallet's files and network. `tests/` runs the library with the real crates.

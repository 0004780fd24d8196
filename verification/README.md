# mtproto

A verified library for creating an MTProto authorization key: the TL
serialization of the handshake messages, the unencrypted message envelope,
the abridged TCP framing, and the computations between the messages of the
Diffie-Hellman exchange. The library in `src/` is written in Verus. Its
functions carry contracts that Verus proves, except the functions marked
`#[verifier::external_body]`: these wrap calls into std and outside crates
(the clock, SHA-1, AES-IGE, big-number arithmetic, factorization, PEM
parsing, boxing a byte vector), and their contracts are trusted, not proved.

- `src/le.rs`, `src/reader.rs`: little-endian numbers and the read cursor.
- `src/traits/tl_object.rs`: the `TLObject` interface and its implementations
  for `int`, `long`, `int128`, `int256`, `Vector t` and `bytes`, with the
  proof that decoding an encoding gives the value back.
- `src/packets/`: the nine handshake objects.
- `src/header.rs`: message ids and the unencrypted message envelope.
- `src/network.rs`: the abridged framing.
- `src/utils.rs`, `src/handshake.rs`: hashing, AES-IGE, RSA, factorization,
  key selection, key derivation and the security checks.
- `app/`: the client program that talks to a data center over TCP.

# poh

A proof-of-human certificate authority built on secp256k1 keys: a key
master signs a client's public key into a certificate; the server admits a
client whose certificate a trusted root key accepts and whose record in the
database names that root's issuer, and keeps the clients' sessions and
challenges until they expire. A second service checks OpenPGP-signed
messages against a keyring.

Layout:

- `src/` — the verified library.
  - `table.rs`: string-keyed tables (the view is a finite map).
  - `session.rs`: sessions, challenges, the request state machine and
    the removal of expired entries.
  - `keys.rs`: key masters, key files, certificates, root certificates,
    the database, hashing and ECIES text encryption.
  - `server.rs`: which clients the server admits and what it answers.
  - `client.rs`: the requests a client builds.
  - `pgp.rs`, `poh.rs`: the signature-checking service's decisions and
    messages.
  - `pylib.rs`: the types of the Python binding.
  - `hex.rs`: hexadecimal text.
  - `crypto.rs`: the trusted calls into `secp256k1`, `sha2`,
    `rust-crypto` (RC4), `rand` and `ecies`, with what is assumed of them.
- `app/` — command-line tools, file I/O (MessagePack), threads, OpenPGP
  and the Python binding.
- `tests/` — tests of the library.

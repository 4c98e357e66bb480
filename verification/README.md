# lulzcoin

A verified core for lulzcoin, "the unimaginably useless cryptocoin": the
`internetz` command-line wallet and the `lulzd` block chain.

- `src/` is the verified library:
  - `encoding`: lower-case hex and signed hex pairs;
  - `base58`: Base58 text and its decoding;
  - `digest`: SHA-256 and RIPEMD-160 (rust-crypto);
  - `address`: binary addresses and addresses of public keys;
  - `wallet`: the wallet, its RSA key pairs (OpenSSL) and addresses;
  - `vault`: passphrase keys (scrypt) and sealed wallet files
    (ChaCha20-Poly1305, libsodium);
  - `chain`: blocks, transactions and the chain (the clock reading is
    an argument of `push_block` and `new_at`);
  - `cli`: the prompt, command and yes/no parsing, wallet file paths.
- `app/` is the program: the prompt loop, passphrase input, files, and the
  JSON copies of the library's types (`internetz lulzd` dumps a new chain).
- `tests/` runs the library against known values.

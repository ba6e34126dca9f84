# universe

Tools around a game server, with their logic verified by Verus:

- `src/` is the verified library: the packet cipher and its key derivation
  (`cipher`, `mt`, `random`, `keys`), the session-key search (`bruteforce`), the
  reading and decryption of captured traffic (`capture`, `processor`), RSA and
  Base64 decoding (`crypto`), the SDK server's account data (`accounts`), the
  sniffer's configuration and packet messages (`sniffer`), the SDK server's login
  and registration decisions (`accounts`), the launcher's
  configuration and proxy rules (`launcher`), and the text parsing they share
  (`text`).
- `tests/` runs the library on concrete values.
- `app/` holds the programs around it (`ayylmao`, `cultivation`, `magic-gc`), the
  JNI entry points of the game server's transport and the KCP C interface: the
  parts that do I/O, floating point or platform calls, and the KCP reassembly of
  captured datagrams (the `kcp` crate's receive path can panic on wire data, so
  the library does not call it). The `kcp` crate's blocks take no token.

The sniffer reads `resources/rsa_key.pem` and `resources/mhy_keys.txt` at run time.

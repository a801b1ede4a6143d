# trojan_rust

A Trojan proxy server. The library under `src/` holds the protocol logic, verified with Verus:

- `tproto` (and the older `protocol` tree): address types, commands, request headers, the
  reader of Trojan request headers and of UDP packet headers, and the framing of UDP packets
  sent back to a client, with laws that a header written to the wire reads back unchanged and
  that a decided read does not change when more bytes arrive.
- `server::acceptor`: the secret of a password (lower-case hex of its SHA-224 digest) and the
  acceptance of a connection, which holds exactly when the header's hex is the server's secret.
- `server::users`: registering the secrets of passwords in a `DashMap`.
- `config`: the configuration values and the loading of the TLS key and certificates from PEM text.
- `proxy`: the decisions of an outbound handler.

`app/` is the program around it: argument handling, reading the configuration file, TLS and
network I/O.

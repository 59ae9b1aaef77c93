# FoggyChat

A chat server that speaks the FoggyChat transfer protocol (FCTP).

- `src/` is the library, verified with Verus: the messages and their wire format
  (`protocol_utils/fctp.rs`), the clients and the rate limit (`fctp_client.rs`), what the server does
  with each message (`fctp_handlers.rs`), the key exchange (`fctp_secure.rs`), the operator's actions
  (`fctp_operations.rs`), the course of a connection (`server.rs`), and the ciphers (`crypt/`).
  It reads no socket and no clock: packets and the time come in as values, and what is to be sent
  comes out as values.
- `app/` is the program around it: TCP, the clock and the console.
- `tests/` runs the library on concrete values.

A client connects over TCP and is sent the public key of the server in base64. It answers with its own
exchange key, sealed to that key and in base64, and is sent a session key sealed to the exchange key.
From then on every packet is an FCTP message under AES-256-GCM.

# yabts

A byte transformation service: a client sends a payload over TCP, the server
encodes, decodes, compresses or decompresses it and answers, and keeps
statistics of the bytes it handled.

- `src/` is the verified library (Verus): messages (`message`), the
  server's request checks and responses (`server`), its statistics
  (`stats`), the client's requests and its reading of responses (`client`),
  run-mode selection (`helpers`), the transform traits (`transform`), and
  three transforms: base 64 (`b64`), COBS-style byte stuffing (`cobs`) and a
  run-length compression (`simple`).  `primitives` holds the contracts of
  the few standard-library calls the proofs rest on.
- `app/` is the unverified shell, a program (`app/main.rs`) that runs as
  a client or as a server with the run-length compression: argument
  parsing, sockets, files, the bincode wire encoding, and the compression
  ratio, which is computed in floating point.
- `tests/` runs the library on concrete values.

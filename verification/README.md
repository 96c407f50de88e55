# quadro

Core of a water-cooling monitor for Linux: it reads sensors through the
kernel's hardware monitoring files, keeps a bounded history per sensor, and
streams framed packets from a sensor server to a display client.

- `src/` is the verified library: text trimming and decimal parsing, file
  paths, sensor configuration and raw readings, the bounded history and the
  processing state of a sensor, sensor modules and their save/restore,
  packet framing, the server's cache decisions, chart bar grouping, the
  client's display entries, and the recognition of label and input files.
- `app/` is the program around it: file and socket I/O, threads, logging,
  serialisation, and the floating-point computation of measured quantities.
  The library holds each quantity as an order key (`app/keys.rs`).
- `tests/` exercises the library.

# Pluton

A small federated chat system: a chat server, a home server that keeps user profiles,
a terminal client and a debugging command-line client. The protocol's logic is a Verus
library whose functions carry proved contracts; the programs around it live in `app/`.

## Layout

- `src/` — the verified library.
  - `base64`, `text` — encodings and text helpers.
  - `crypto`, `account` — key pairs sealed under a password, local accounts.
  - `definitions` — the protocol's messages.
  - `handshake` — the challenge-response handshake as two state machines.
  - `client`, `peers`, `editor`, `tui`, `view`, `session` — what the clients do with keys,
    lines and server messages, and the steps of the terminal client's network task.
  - `server`, `store`, `files` — the chat server's registry of connections, its answers to
    clients, the rows of its database and its file service.
  - `home` — the checks of the home server.
  - `config`, `logging` — set-up checks, command lines and log lines.
- `tests/` — tests of the library.
- `app/` — `main`, the network and database plumbing, the terminal drawing and the
  dialogs. `pluton tui|cli|server|home` runs one of the programs.

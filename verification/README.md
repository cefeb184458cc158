# matrirc

A simple ircd bridging to Matrix. What it does with what it is told is a library that is proved
with Verus; the program around it does the input and output.

# Layout

- `src/` is the library.
  - `state.rs` seals and opens what is kept of a user: who registered gets the session back with
    the same password.
  - `matrirc.rs` is the state of a session: how far it is, its rooms, and what the client was told.
  - `ircd/` is the IRC side: messages, logging in, joining channels, what is done with what the
    client writes.
  - `matrix/` is the Matrix side: rooms as queries and channels (`room_target.rs`), their names
    (`room_mappings.rs`), messages, reactions, members, invitations and verifications.
  - `name_map.rs` and `text.rs` are what these are built on.
- `tests/` runs the library on examples.
- `app/` is the program: command line, connections, files, and the Matrix client.

# Usage

- Run the server with `--allow-register`, connect from an irc client with a password set.
- Follow the prompt to login to your account.
- Once logged in, you are remembered by nick and password: you can reconnect without
  `--allow-register` and get your session back.

Encrypted files are written to `--media-dir`, and the links that are given to them begin with
`--media-url`.

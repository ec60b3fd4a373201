# Chat Café

A small terminal chat: a server that keeps track of who is logged in and
relays messages, and a terminal client with a login screen, a chat room,
`@mention` completion and word-wrapped input.

The crate is in two parts.

- `src/` is the library, written in Verus. It holds the logic of both sides
  with contracts that Verus proves:
  - `server` — the server core: logins, logouts, the user list, and the
    actions each request asks for;
  - `client` — the rules of the worker that serves one connection;
  - `remote` — the packets and their length-delimited framing;
  - `tui` — the client's state machine, its key handling and completion,
    the word wrapping of the prompt, and what each screen shows and how it
    divides the terminal;
  - `text` — string helpers shared by both sides.
- `app/` is the program around it: sockets, the database, the terminal,
  CBOR encoding, configuration files and the command line.

The tests under `tests/` exercise the library with the outside crates linked.

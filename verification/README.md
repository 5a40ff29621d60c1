# funkin_server

The server of the Friday Night Funkin multiplayer modification: it keeps
track of the players in a room and relays their messages.

- `src/protocol.rs`, `src/messages.rs`: the protocol's messages, as plain values.
- `src/room.rs`: the room. Each client's protocol state, the answer to every
  message a client sends, to a departure, and to every event of the session,
  all as exact functions of the room's state.
- `src/room_laws.rs`: what holds across the room's operations (usernames stay
  unique, frames only go to present clients, the whole lobby starts playing
  at once, a message changes only its sender's state or starts the game, a
  message that breaks the protocol only closes its sender, and over any run
  of the session clients keep their names and never go back to an earlier
  state).
- `src/util.rs`: the command line argument parser; `src/argument_laws.rs`:
  what holds across its steps.
- `src/cli.rs`: what the server's command line asks for.
- `app/`: the program around the library: the websocket server, the JSON
  encoding of the messages, and the loop that feeds the room its events.

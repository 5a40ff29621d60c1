//! A room server for the Friday Night Funkin multiplayer modification:
//! the protocol's messages, the room logic that answers them, and the
//! command line parser of the server.

pub mod argument_laws;
pub mod cli;
pub mod cli_laws;
pub mod messages;
pub mod protocol;
pub mod room;
pub mod room_laws;
pub mod util;

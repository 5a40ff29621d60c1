//! The messages of the room protocol, one enum per protocol state.
//!
//! On the wire each message is a JSON object whose `opcode` field names the
//! variant ("0", "1", ...); that encoding is done outside this crate. Here a
//! message is a plain value, and each type has a view made of sequences of
//! characters that the contracts of the room logic speak of.

use vstd::prelude::*;

verus! {

/// Messages of the room login state.
#[derive(Debug, Clone, PartialEq, Eq)]
pub enum RoomLogin {
    /// Opcode "0", client to server: the username the client wants.
    ClientInformation { username: String },
    /// Opcode "1", server to client: the users already in the lobby.
    RoomInformation { users: Vec<String> },
    /// Opcode "2", server to client: the requested username is in use.
    NameTaken,
}

/// Messages of the lobby state.
#[derive(Debug, Clone, PartialEq, Eq)]
pub enum Lobby {
    /// Opcode "0", client to server: the client toggles its readiness.
    ClientReady,
    /// Opcode "1", server to client: the users that are ready.
    UsersReadied { users: Vec<String> },
    /// Opcode "2", server to client: the game starts.
    GameStart,
    /// Opcode "3", server to client: a user joined the lobby.
    UserJoin { user: String },
    /// Opcode "4", server to client: a user left.
    UserLeft { user: String },
}

/// Messages of the play state.
///
/// Scores and healths are JSON numbers on the wire; the server never reads
/// them, it only relays them, so they are carried here as the IEEE 754 bit
/// patterns of the double-precision values, which relays them unchanged.
#[derive(Debug, Clone, PartialEq, Eq)]
pub enum Play {
    /// Opcode "0", client to server: the client's new score and health.
    ClientScoreUpdate { score: u64, health: u64 },
    /// Opcode "1", server to client: the score and health of a user.
    UserScoreUpdate { user: String, score: u64, health: u64 },
    /// Opcode "2", server to client: a user left.
    UserLeave { user: String },
}

/// The abstract value of a [`RoomLogin`] message.
pub enum RoomLoginView {
    ClientInformation { username: Seq<char> },
    RoomInformation { users: Seq<Seq<char>> },
    NameTaken,
}

/// The abstract value of a [`Lobby`] message.
pub enum LobbyView {
    ClientReady,
    UsersReadied { users: Seq<Seq<char>> },
    GameStart,
    UserJoin { user: Seq<char> },
    UserLeft { user: Seq<char> },
}

/// The abstract value of a [`Play`] message.
pub enum PlayView {
    ClientScoreUpdate { score: u64, health: u64 },
    UserScoreUpdate { user: Seq<char>, score: u64, health: u64 },
    UserLeave { user: Seq<char> },
}

impl View for RoomLogin {
    type V = RoomLoginView;

    open spec fn view(&self) -> RoomLoginView {
        match self {
            RoomLogin::ClientInformation { username } => RoomLoginView::ClientInformation {
                username: username@,
            },
            RoomLogin::RoomInformation { users } => RoomLoginView::RoomInformation {
                users: users.deep_view(),
            },
            RoomLogin::NameTaken => RoomLoginView::NameTaken,
        }
    }
}

impl View for Lobby {
    type V = LobbyView;

    open spec fn view(&self) -> LobbyView {
        match self {
            Lobby::ClientReady => LobbyView::ClientReady,
            Lobby::UsersReadied { users } => LobbyView::UsersReadied { users: users.deep_view() },
            Lobby::GameStart => LobbyView::GameStart,
            Lobby::UserJoin { user } => LobbyView::UserJoin { user: user@ },
            Lobby::UserLeft { user } => LobbyView::UserLeft { user: user@ },
        }
    }
}

impl View for Play {
    type V = PlayView;

    open spec fn view(&self) -> PlayView {
        match self {
            Play::ClientScoreUpdate { score, health } => PlayView::ClientScoreUpdate {
                score: *score,
                health: *health,
            },
            Play::UserScoreUpdate { user, score, health } => PlayView::UserScoreUpdate {
                user: user@,
                score: *score,
                health: *health,
            },
            Play::UserLeave { user } => PlayView::UserLeave { user: user@ },
        }
    }
}

} // verus!

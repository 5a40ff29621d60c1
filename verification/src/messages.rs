//! Messages of the login state as the client names them.

use vstd::prelude::*;

verus! {

/// Messages exchanged while a client logs in: opcode "0" carries the
/// username the client asks for, opcode "1" the users already present.
#[derive(Debug, Clone, PartialEq, Eq)]
pub enum LoginState {
    ClientLogin { username: String },
    RoomInformation { users: Vec<String> },
}

/// The abstract value of a [`LoginState`] message.
pub enum LoginStateView {
    ClientLogin { username: Seq<char> },
    RoomInformation { users: Seq<Seq<char>> },
}

impl View for LoginState {
    type V = LoginStateView;

    open spec fn view(&self) -> LoginStateView {
        match self {
            LoginState::ClientLogin { username } => LoginStateView::ClientLogin {
                username: username@,
            },
            LoginState::RoomInformation { users } => LoginStateView::RoomInformation {
                users: users.deep_view(),
            },
        }
    }
}

} // verus!

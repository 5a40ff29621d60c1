//! The room: the clients connected to the server, their protocol states, and
//! the server's answer to every message and every connection change.
//!
//! The room is a list of client states; the sockets live beside it, in the
//! same order, outside this crate. Every answer is a list of [`Outgoing`]
//! frames, each addressed to a client by its position in the list.

use vstd::prelude::*;
use crate::protocol::{Lobby, LobbyView, Play, PlayView, RoomLogin, RoomLoginView};

verus! {

/// The protocol state of one client.
#[derive(Debug, Clone, PartialEq, Eq)]
pub enum ClientState {
    /// Connected, no username chosen yet.
    Login,
    /// In the lobby under `username`, ready or not.
    Lobby { username: String, ready: bool },
    /// Playing under `username`.
    Play { username: String },
}

impl Default for ClientState {
    fn default() -> (state: Self)
        ensures
            state is Login,
    {
        ClientState::Login
    }
}

/// The abstract value of a [`ClientState`].
pub enum StateView {
    Login,
    Lobby { username: Seq<char>, ready: bool },
    Play { username: Seq<char> },
}

impl View for ClientState {
    type V = StateView;

    open spec fn view(&self) -> StateView {
        match self {
            ClientState::Login => StateView::Login,
            ClientState::Lobby { username, ready } => StateView::Lobby {
                username: username@,
                ready: *ready,
            },
            ClientState::Play { username } => StateView::Play { username: username@ },
        }
    }
}

/// One frame to send on a client's socket.
#[derive(Debug, Clone, PartialEq, Eq)]
pub enum Frame {
    RoomLogin(RoomLogin),
    Lobby(Lobby),
    Play(Play),
    /// Close the connection with a status code and a reason.
    Close { code: u16, reason: String },
}

/// The abstract value of a [`Frame`].
pub enum FrameView {
    RoomLogin(RoomLoginView),
    Lobby(LobbyView),
    Play(PlayView),
    Close { code: u16, reason: Seq<char> },
}

impl View for Frame {
    type V = FrameView;

    open spec fn view(&self) -> FrameView {
        match self {
            Frame::RoomLogin(m) => FrameView::RoomLogin(m@),
            Frame::Lobby(m) => FrameView::Lobby(m@),
            Frame::Play(m) => FrameView::Play(m@),
            Frame::Close { code, reason } => FrameView::Close { code: *code, reason: reason@ },
        }
    }
}

/// A frame addressed to the client at position `client`.
#[derive(Debug, Clone, PartialEq, Eq)]
pub struct Outgoing {
    pub client: usize,
    pub frame: Frame,
}

/// The abstract value of an [`Outgoing`] frame.
pub struct Delivery {
    pub client: int,
    pub frame: FrameView,
}

impl View for Outgoing {
    type V = Delivery;

    open spec fn view(&self) -> Delivery {
        Delivery { client: self.client as int, frame: self.frame@ }
    }
}

/// A text message of a client, decoded as a message of each protocol state.
///
/// Which decoding counts depends on the state of the client that sent it;
/// an `Err` holds the decoder's description of why the text is not such a
/// message.
#[derive(Debug, PartialEq, Eq)]
pub struct Decoded {
    pub room_login: Result<RoomLogin, String>,
    pub lobby: Result<Lobby, String>,
    pub play: Result<Play, String>,
}

/// The abstract value of a [`Decoded`] message.
pub struct DecodedView {
    pub room_login: Result<RoomLoginView, Seq<char>>,
    pub lobby: Result<LobbyView, Seq<char>>,
    pub play: Result<PlayView, Seq<char>>,
}

impl View for Decoded {
    type V = DecodedView;

    open spec fn view(&self) -> DecodedView {
        DecodedView {
            room_login: match &self.room_login {
                Ok(m) => Ok(m@),
                Err(e) => Err(e@),
            },
            lobby: match &self.lobby {
                Ok(m) => Ok(m@),
                Err(e) => Err(e@),
            },
            play: match &self.play {
                Ok(m) => Ok(m@),
                Err(e) => Err(e@),
            },
        }
    }
}

/// The abstract value of a list of client states.
pub open spec fn view_states(v: Seq<ClientState>) -> Seq<StateView> {
    Seq::new(v.len(), |i: int| v[i]@)
}

/// The abstract value of a list of outgoing frames.
pub open spec fn view_outgoing(v: Seq<Outgoing>) -> Seq<Delivery> {
    Seq::new(v.len(), |i: int| v[i]@)
}

/// The username of a client, if it has chosen one.
pub open spec fn name_of(st: StateView) -> Option<Seq<char>> {
    match st {
        StateView::Login => None,
        StateView::Lobby { username, .. } => Some(username),
        StateView::Play { username } => Some(username),
    }
}

/// Whether `st` is a lobby client that is ready.
pub open spec fn is_ready(st: StateView) -> bool {
    st matches StateView::Lobby { ready, .. } && ready
}

/// Whether some client of `s` goes by `name`.
pub open spec fn name_taken(s: Seq<StateView>, name: Seq<char>) -> bool {
    exists|j: int| 0 <= j < s.len() && name_of(#[trigger] s[j]) == Some(name)
}

/// No two clients of `s` go by the same name.
pub open spec fn names_unique(s: Seq<StateView>) -> bool {
    forall|j: int, k: int|
        0 <= j < s.len() && 0 <= k < s.len() && j != k && (#[trigger] name_of(s[j])) is Some
            ==> name_of(s[j]) != #[trigger] name_of(s[k])
}

/// A group of clients that a message goes to, or whose names it lists.
#[derive(Debug, Clone, Copy, PartialEq, Eq)]
pub enum Audience {
    /// The clients in the lobby.
    InLobby,
    /// The clients in the lobby that are ready.
    Ready,
    /// The clients that are playing.
    InPlay,
    /// The clients in the lobby but the one at the given position.
    LobbyExcept(usize),
    /// The ready clients in the lobby but the one at the given position.
    ReadyExcept(usize),
}

/// Whether the client at position `j`, in state `st`, belongs to `a`.
pub open spec fn includes(a: Audience, j: int, st: StateView) -> bool {
    match a {
        Audience::InLobby => st is Lobby,
        Audience::Ready => is_ready(st),
        Audience::InPlay => st is Play,
        Audience::LobbyExcept(i) => j != i && st is Lobby,
        Audience::ReadyExcept(i) => j != i && is_ready(st),
    }
}

/// The names of the clients among the first `n` of `s` that belong to `a`,
/// in the order of their positions.
pub open spec fn names_where(s: Seq<StateView>, n: int, a: Audience) -> Seq<Seq<char>>
    decreases n,
{
    if n <= 0 {
        Seq::empty()
    } else {
        let prev = names_where(s, n - 1, a);
        if includes(a, n - 1, s[n - 1]) && name_of(s[n - 1]) is Some {
            prev.push(name_of(s[n - 1])->0)
        } else {
            prev
        }
    }
}

/// `frame` sent to each client among the first `n` of `s` that belongs to
/// `a`, in the order of their positions.
pub open spec fn deliveries(s: Seq<StateView>, n: int, a: Audience, frame: FrameView) -> Seq<
    Delivery,
>
    decreases n,
{
    if n <= 0 {
        Seq::empty()
    } else {
        let prev = deliveries(s, n - 1, a, frame);
        if includes(a, n - 1, s[n - 1]) {
            prev.push(Delivery { client: n - 1, frame })
        } else {
            prev
        }
    }
}

/// The state a client has once the game starts: lobby clients play.
pub open spec fn promoted(st: StateView) -> StateView {
    match st {
        StateView::Lobby { username, .. } => StateView::Play { username },
        _ => st,
    }
}

/// Every lobby client of `s` starts playing.
pub open spec fn start_game(s: Seq<StateView>) -> Seq<StateView> {
    Seq::new(s.len(), |j: int| promoted(s[j]))
}

/// The reason given when a client sends a message that only the server sends.
pub open spec fn reserved_opcode_reason() -> Seq<char> {
    "sent opcode reserved for server use"@
}

/// The status code with which a client that broke the protocol is closed.
pub open spec fn protocol_error_code() -> u16 {
    1007
}

/// The client at `i` is closed with `reason`.
pub open spec fn closing(i: int, reason: Seq<char>) -> Seq<Delivery> {
    seq![
        Delivery {
            client: i,
            frame: FrameView::Close { code: protocol_error_code(), reason },
        },
    ]
}

/// What the room becomes, and what it sends, when the client at `i` asks
/// to log in as `name`.
///
/// A name in use is refused with a name-taken message and nothing changes.
/// Otherwise the client learns the other lobby users and then, when some of
/// them are ready, which ones; every other lobby client learns of the
/// newcomer, and the client enters the lobby, not ready.
pub open spec fn login_outcome(s: Seq<StateView>, i: int, name: Seq<char>) -> (
    Seq<StateView>,
    Seq<Delivery>,
) {
    if name_taken(s, name) {
        (s, seq![Delivery { client: i, frame: FrameView::RoomLogin(RoomLoginView::NameTaken) }])
    } else {
        let iu = i as usize;
        let info = Delivery {
            client: i,
            frame: FrameView::RoomLogin(
                RoomLoginView::RoomInformation {
                    users: names_where(s, s.len() as int, Audience::LobbyExcept(iu)),
                },
            ),
        };
        let ready = names_where(s, s.len() as int, Audience::ReadyExcept(iu));
        let readied = if ready.len() == 0 {
            Seq::empty()
        } else {
            seq![
                Delivery {
                    client: i,
                    frame: FrameView::Lobby(LobbyView::UsersReadied { users: ready }),
                },
            ]
        };
        (
            s.update(i, StateView::Lobby { username: name, ready: false }),
            seq![info] + readied + deliveries(
                s,
                s.len() as int,
                Audience::LobbyExcept(iu),
                FrameView::Lobby(LobbyView::UserJoin { user: name }),
            ),
        )
    }
}

/// Whether toggling leaves `s1` (the room after the toggle) starting the
/// game: it does unless more than one client is connected and not all of
/// them are ready lobby clients.
pub open spec fn game_starts(s1: Seq<StateView>) -> bool {
    !(s1.len() != names_where(s1, s1.len() as int, Audience::Ready).len() && s1.len() > 1)
}

/// What the room becomes, and what it sends, when the lobby client at `i`
/// (named `name`, readiness `ready`) toggles its readiness.
///
/// Every lobby client is told either the names of the ready clients or that
/// the game starts; when it starts, every lobby client starts playing.
pub open spec fn ready_outcome(s: Seq<StateView>, i: int, name: Seq<char>, ready: bool) -> (
    Seq<StateView>,
    Seq<Delivery>,
) {
    let s1 = s.update(i, StateView::Lobby { username: name, ready: !ready });
    let starts = game_starts(s1);
    let message = if starts {
        LobbyView::GameStart
    } else {
        LobbyView::UsersReadied { users: names_where(s1, s1.len() as int, Audience::Ready) }
    };
    (
        if starts {
            start_game(s1)
        } else {
            s1
        },
        deliveries(s1, s1.len() as int, Audience::InLobby, FrameView::Lobby(message)),
    )
}

/// What the room sends when the playing client named `name` reports a score
/// and a health: every playing client, the sender too, is told.
pub open spec fn score_outcome(s: Seq<StateView>, name: Seq<char>, score: u64, health: u64) -> (
    Seq<StateView>,
    Seq<Delivery>,
) {
    (
        s,
        deliveries(
            s,
            s.len() as int,
            Audience::InPlay,
            FrameView::Play(PlayView::UserScoreUpdate { user: name, score, health }),
        ),
    )
}

/// What the room becomes, and what it sends, when the client at `i` sends a
/// text that decodes as `d`.
///
/// The decoding that counts is the one of the client's state. A message of
/// that state that only the server sends closes the client with code 1007
/// and the reserved-opcode reason; a text that is no message of that state
/// closes it with code 1007 and the decoder's description.
pub open spec fn opcode_outcome(s: Seq<StateView>, d: DecodedView, i: int) -> (
    Seq<StateView>,
    Seq<Delivery>,
) {
    match s[i] {
        StateView::Login => match d.room_login {
            Ok(RoomLoginView::ClientInformation { username }) => login_outcome(s, i, username),
            Ok(_) => (s, closing(i, reserved_opcode_reason())),
            Err(e) => (s, closing(i, e)),
        },
        StateView::Lobby { username, ready } => match d.lobby {
            Ok(LobbyView::ClientReady) => ready_outcome(s, i, username, ready),
            Ok(_) => (s, closing(i, reserved_opcode_reason())),
            Err(e) => (s, closing(i, e)),
        },
        StateView::Play { username } => match d.play {
            Ok(PlayView::ClientScoreUpdate { score, health }) => score_outcome(
                s,
                username,
                score,
                health,
            ),
            Ok(_) => (s, closing(i, reserved_opcode_reason())),
            Err(e) => (s, closing(i, e)),
        },
    }
}

/// How a client in state `st` is told that `user` left: a playing client by
/// the play state's message, any other client by the lobby's.
pub open spec fn departure_notice(st: StateView, user: Seq<char>) -> FrameView {
    if st is Play {
        FrameView::Play(PlayView::UserLeave { user })
    } else {
        FrameView::Lobby(LobbyView::UserLeft { user })
    }
}

/// The frames sent to the first `n` clients of `s` when `user` has left:
/// each is told that the user left and, when `starts`, that the game starts.
pub open spec fn leave_deliveries(s: Seq<StateView>, n: int, user: Seq<char>, starts: bool) -> Seq<
    Delivery,
>
    decreases n,
{
    if n <= 0 {
        Seq::empty()
    } else {
        let prev = leave_deliveries(s, n - 1, user, starts);
        let left = prev.push(Delivery { client: n - 1, frame: departure_notice(s[n - 1], user) });
        if starts {
            left.push(Delivery { client: n - 1, frame: FrameView::Lobby(LobbyView::GameStart) })
        } else {
            left
        }
    }
}

/// Whether every remaining client is either logging in or ready in the lobby.
pub open spec fn all_ready_or_logging_in(s: Seq<StateView>) -> bool {
    forall|j: int| 0 <= j < s.len() ==> (#[trigger] s[j] is Login || is_ready(s[j]))
}

/// What the room `s` (the departed client already removed) becomes, and
/// what it sends, when the user named `user` has left.
pub open spec fn leave_outcome(s: Seq<StateView>, user: Seq<char>) -> (
    Seq<StateView>,
    Seq<Delivery>,
) {
    let starts = all_ready_or_logging_in(s);
    (
        if starts {
            start_game(s)
        } else {
            s
        },
        leave_deliveries(s, s.len() as int, user, starts),
    )
}

/// The names of `v`, copied.
fn copy_names(v: &Vec<String>) -> (r: Vec<String>)
    ensures
        r.deep_view() == v.deep_view(),
{
    let mut r: Vec<String> = Vec::new();
    let mut k: usize = 0;
    while k < v.len()
        invariant
            k <= v.len(),
            r@.len() == k,
            forall|i: int| 0 <= i < k ==> (#[trigger] r@[i])@ == v@[i]@,
        decreases v.len() - k,
    {
        let name = v[k].clone();
        r.push(name);
        k = k + 1;
    }
    assert(r.deep_view() =~= v.deep_view());
    r
}

impl RoomLogin {
    /// A copy of the message.
    pub fn duplicate(&self) -> (r: RoomLogin)
        ensures
            r@ == self@,
    {
        match self {
            RoomLogin::ClientInformation { username } => RoomLogin::ClientInformation {
                username: username.clone(),
            },
            RoomLogin::RoomInformation { users } => RoomLogin::RoomInformation {
                users: copy_names(users),
            },
            RoomLogin::NameTaken => RoomLogin::NameTaken,
        }
    }
}

impl Lobby {
    /// A copy of the message.
    pub fn duplicate(&self) -> (r: Lobby)
        ensures
            r@ == self@,
    {
        match self {
            Lobby::ClientReady => Lobby::ClientReady,
            Lobby::UsersReadied { users } => Lobby::UsersReadied { users: copy_names(users) },
            Lobby::GameStart => Lobby::GameStart,
            Lobby::UserJoin { user } => Lobby::UserJoin { user: user.clone() },
            Lobby::UserLeft { user } => Lobby::UserLeft { user: user.clone() },
        }
    }
}

impl Play {
    /// A copy of the message.
    pub fn duplicate(&self) -> (r: Play)
        ensures
            r@ == self@,
    {
        match self {
            Play::ClientScoreUpdate { score, health } => Play::ClientScoreUpdate {
                score: *score,
                health: *health,
            },
            Play::UserScoreUpdate { user, score, health } => Play::UserScoreUpdate {
                user: user.clone(),
                score: *score,
                health: *health,
            },
            Play::UserLeave { user } => Play::UserLeave { user: user.clone() },
        }
    }
}

impl Frame {
    /// A copy of the frame.
    pub fn duplicate(&self) -> (r: Frame)
        ensures
            r@ == self@,
    {
        match self {
            Frame::RoomLogin(m) => Frame::RoomLogin(m.duplicate()),
            Frame::Lobby(m) => Frame::Lobby(m.duplicate()),
            Frame::Play(m) => Frame::Play(m.duplicate()),
            Frame::Close { code, reason } => Frame::Close { code: *code, reason: reason.clone() },
        }
    }
}

/// Whether the client at position `j`, in state `c`, belongs to `a`.
fn in_audience(a: Audience, j: usize, c: &ClientState) -> (b: bool)
    ensures
        b == includes(a, j as int, c@),
{
    match a {
        Audience::InLobby => c.is_lobby(),
        Audience::Ready => c.is_ready(),
        Audience::InPlay => match c {
            ClientState::Play { .. } => true,
            _ => false,
        },
        Audience::LobbyExcept(i) => j != i && c.is_lobby(),
        Audience::ReadyExcept(i) => j != i && c.is_ready(),
    }
}

impl ClientState {
    /// Whether the client is in the lobby.
    pub fn is_lobby(&self) -> (b: bool)
        ensures
            b == self@ is Lobby,
    {
        match self {
            ClientState::Lobby { .. } => true,
            _ => false,
        }
    }

    /// Whether the client is in the lobby and ready.
    pub fn is_ready(&self) -> (b: bool)
        ensures
            b == is_ready(self@),
    {
        match self {
            ClientState::Lobby { ready, .. } => *ready,
            _ => false,
        }
    }

    /// The client's username, if it has chosen one.
    pub fn username(&self) -> (r: Option<&String>)
        ensures
            match r {
                Some(u) => name_of(self@) == Some(u@),
                None => name_of(self@) is None,
            },
    {
        match self {
            ClientState::Login => None,
            ClientState::Lobby { username, .. } => Some(username),
            ClientState::Play { username } => Some(username),
        }
    }
}

/// The names of the clients that belong to `a`, in the order of their positions.
fn names_of(clients: &Vec<ClientState>, a: Audience) -> (names: Vec<String>)
    ensures
        names.deep_view() == names_where(view_states(clients@), clients@.len() as int, a),
{
    let ghost s = view_states(clients@);
    let mut names: Vec<String> = Vec::new();
    let mut j: usize = 0;
    while j < clients.len()
        invariant
            j <= clients.len(),
            s == view_states(clients@),
            names.deep_view() == names_where(s, j as int, a),
        decreases clients.len() - j,
    {
        let ghost prev = names.deep_view();
        if in_audience(a, j, &clients[j]) {
            match clients[j].username() {
                Some(u) => {
                    names.push(u.clone());
                    assert(names.deep_view() =~= prev.push(u@));
                },
                None => {},
            }
        }
        j = j + 1;
    }
    names
}

/// Appends `frame`, addressed to every client that belongs to `a`, to `out`.
fn deliver(clients: &Vec<ClientState>, a: Audience, frame: &Frame, out: &mut Vec<Outgoing>)
    ensures
        view_outgoing(final(out)@) == view_outgoing(old(out)@) + deliveries(
            view_states(clients@),
            clients@.len() as int,
            a,
            frame@,
        ),
{
    let ghost s = view_states(clients@);
    let ghost start = view_outgoing(out@);
    let mut j: usize = 0;
    while j < clients.len()
        invariant
            j <= clients.len(),
            s == view_states(clients@),
            view_outgoing(out@) == start + deliveries(s, j as int, a, frame@),
        decreases clients.len() - j,
    {
        let ghost prev = view_outgoing(out@);
        if in_audience(a, j, &clients[j]) {
            out.push(Outgoing { client: j, frame: frame.duplicate() });
            assert(view_outgoing(out@) =~= prev.push(Delivery { client: j as int, frame: frame@ }));
        }
        j = j + 1;
        assert(start + deliveries(s, j as int, a, frame@) =~= view_outgoing(out@));
    }
}

/// Whether some client goes by `name`.
fn name_in_use(clients: &Vec<ClientState>, name: &String) -> (b: bool)
    ensures
        b == name_taken(view_states(clients@), name@),
{
    let ghost s = view_states(clients@);
    let mut j: usize = 0;
    while j < clients.len()
        invariant
            j <= clients.len(),
            s == view_states(clients@),
            forall|k: int| 0 <= k < j ==> name_of(#[trigger] s[k]) != Some(name@),
        decreases clients.len() - j,
    {
        match clients[j].username() {
            Some(u) => {
                if *u == *name {
                    assert(name_of(s[j as int]) == Some(name@));
                    return true;
                }
            },
            None => {},
        }
        j = j + 1;
    }
    false
}

/// Every lobby client starts playing.
fn begin_game(clients: &mut Vec<ClientState>)
    ensures
        view_states(final(clients)@) == start_game(view_states(old(clients)@)),
{
    let ghost s = view_states(clients@);
    let mut j: usize = 0;
    while j < clients.len()
        invariant
            j <= clients.len(),
            clients@.len() == s.len(),
            forall|k: int| 0 <= k < j ==> (#[trigger] clients@[k])@ == promoted(s[k]),
            forall|k: int| j <= k < s.len() ==> (#[trigger] clients@[k])@ == s[k],
        decreases clients.len() - j,
    {
        let promote = match &clients[j] {
            ClientState::Lobby { username, .. } => Some(username.clone()),
            _ => None,
        };
        match promote {
            Some(username) => {
                clients.set(j, ClientState::Play { username });
            },
            None => {},
        }
        j = j + 1;
    }
    assert(view_states(clients@) =~= start_game(s));
}

impl ClientState {
    /// A copy of the state.
    pub fn duplicate(&self) -> (r: ClientState)
        ensures
            r@ == self@,
    {
        match self {
            ClientState::Login => ClientState::Login,
            ClientState::Lobby { username, ready } => ClientState::Lobby {
                username: username.clone(),
                ready: *ready,
            },
            ClientState::Play { username } => ClientState::Play { username: username.clone() },
        }
    }
}

/// Lets the client at `index` into the lobby as `username`, unless the name
/// is in use.
fn welcome(clients: &mut Vec<ClientState>, index: usize, username: String) -> (out: Vec<Outgoing>)
    requires
        index < old(clients).len(),
    ensures
        (view_states(final(clients)@), view_outgoing(out@)) == login_outcome(
            view_states(old(clients)@),
            index as int,
            username@,
        ),
{
    let ghost s = view_states(clients@);
    if name_in_use(clients, &username) {
        let out = vec![Outgoing { client: index, frame: Frame::RoomLogin(RoomLogin::NameTaken) }];
        assert(view_outgoing(out@) =~= login_outcome(s, index as int, username@).1);
        return out;
    }
    let users = names_of(clients, Audience::LobbyExcept(index));
    let readied = names_of(clients, Audience::ReadyExcept(index));
    let mut out: Vec<Outgoing> = Vec::new();
    out.push(
        Outgoing { client: index, frame: Frame::RoomLogin(RoomLogin::RoomInformation { users }) },
    );
    if readied.len() > 0 {
        out.push(
            Outgoing { client: index, frame: Frame::Lobby(Lobby::UsersReadied { users: readied }) },
        );
    }
    let ghost before = view_outgoing(out@);
    let join = Frame::Lobby(Lobby::UserJoin { user: username.clone() });
    deliver(clients, Audience::LobbyExcept(index), &join, &mut out);
    clients.set(index, ClientState::Lobby { username, ready: false });
    proof {
        let expected = login_outcome(s, index as int, username@);
        let ready = names_where(s, s.len() as int, Audience::ReadyExcept(index));
        let head = if ready.len() > 0 {
            seq![
                Delivery {
                    client: index as int,
                    frame: FrameView::RoomLogin(
                        RoomLoginView::RoomInformation {
                            users: names_where(s, s.len() as int, Audience::LobbyExcept(index)),
                        },
                    ),
                },
                Delivery {
                    client: index as int,
                    frame: FrameView::Lobby(LobbyView::UsersReadied { users: ready }),
                },
            ]
        } else {
            seq![
                Delivery {
                    client: index as int,
                    frame: FrameView::RoomLogin(
                        RoomLoginView::RoomInformation {
                            users: names_where(s, s.len() as int, Audience::LobbyExcept(index)),
                        },
                    ),
                },
            ]
        };
        assert(before =~= head);
        assert(view_outgoing(out@) =~= expected.1);
        assert(view_states(clients@) =~= expected.0);
    }
    out
}

/// Toggles the readiness of the lobby client at `index`, named `username`,
/// whose readiness was `ready`; starts the game when the room is ready.
fn toggle_ready(clients: &mut Vec<ClientState>, index: usize, username: String, ready: bool) -> (out:
    Vec<Outgoing>)
    requires
        index < old(clients).len(),
    ensures
        (view_states(final(clients)@), view_outgoing(out@)) == ready_outcome(
            view_states(old(clients)@),
            index as int,
            username@,
            ready,
        ),
{
    let ghost s = view_states(clients@);
    clients.set(index, ClientState::Lobby { username, ready: !ready });
    let ghost s1 = view_states(clients@);
    assert(s1 =~= s.update(index as int, StateView::Lobby { username: username@, ready: !ready }));
    let ready_names = names_of(clients, Audience::Ready);
    let n = clients.len();
    let starts = !(n != ready_names.len() && n > 1);
    let message = if starts {
        Lobby::GameStart
    } else {
        Lobby::UsersReadied { users: ready_names }
    };
    let mut out: Vec<Outgoing> = Vec::new();
    deliver(clients, Audience::InLobby, &Frame::Lobby(message), &mut out);
    if starts {
        begin_game(clients);
    }
    assert(view_outgoing(out@) =~= ready_outcome(s, index as int, username@, ready).1);
    out
}

/// Tells every playing client the score and health that the client named
/// `username` reported.
fn relay_score(clients: &Vec<ClientState>, username: String, score: u64, health: u64) -> (out: Vec<
    Outgoing,
>)
    ensures
        view_outgoing(out@) == score_outcome(view_states(clients@), username@, score, health).1,
{
    let mut out: Vec<Outgoing> = Vec::new();
    let update = Frame::Play(Play::UserScoreUpdate { user: username, score, health });
    deliver(clients, Audience::InPlay, &update, &mut out);
    assert(view_outgoing(out@) =~= score_outcome(view_states(clients@), username@, score, health).1);
    out
}

/// The frame that closes the client at `client` because its text is no
/// message of its state; `error` describes why.
pub fn deserialize_error(error: String, client: usize) -> (out: Outgoing)
    ensures
        out@ == (Delivery {
            client: client as int,
            frame: FrameView::Close { code: protocol_error_code(), reason: error@ },
        }),
{
    Outgoing { client, frame: Frame::Close { code: 1007, reason: error } }
}

/// The frame that closes the client at `client` because it sent a message
/// that only the server sends.
pub fn server_opcode_error(client: usize) -> (out: Outgoing)
    ensures
        out@ == (Delivery {
            client: client as int,
            frame: FrameView::Close { code: protocol_error_code(), reason: reserved_opcode_reason() },
        }),
{
    Outgoing {
        client,
        frame: Frame::Close {
            code: 1007,
            reason: String::from_str("sent opcode reserved for server use"),
        },
    }
}

/// Answers the text that the client at `index` sent, decoded as `data`:
/// the decoding of the client's own state counts.
pub fn process_opcode(clients: &mut Vec<ClientState>, data: Decoded, index: usize) -> (out: Vec<
    Outgoing,
>)
    requires
        index < old(clients).len(),
    ensures
        (view_states(final(clients)@), view_outgoing(out@)) == opcode_outcome(
            view_states(old(clients)@),
            data@,
            index as int,
        ),
{
    let ghost s = view_states(clients@);
    let current = clients[index].duplicate();
    assert(s[index as int] == current@);
    match current {
        ClientState::Login => match data.room_login {
            Ok(RoomLogin::ClientInformation { username }) => welcome(clients, index, username),
            Ok(_) => {
                let out = vec![server_opcode_error(index)];
                assert(view_outgoing(out@) =~= closing(index as int, reserved_opcode_reason()));
                out
            },
            Err(e) => {
                let ghost reason = e@;
                let out = vec![deserialize_error(e, index)];
                assert(view_outgoing(out@) =~= closing(index as int, reason));
                out
            },
        },
        ClientState::Lobby { username, ready } => match data.lobby {
            Ok(Lobby::ClientReady) => toggle_ready(clients, index, username, ready),
            Ok(_) => {
                let out = vec![server_opcode_error(index)];
                assert(view_outgoing(out@) =~= closing(index as int, reserved_opcode_reason()));
                out
            },
            Err(e) => {
                let ghost reason = e@;
                let out = vec![deserialize_error(e, index)];
                assert(view_outgoing(out@) =~= closing(index as int, reason));
                out
            },
        },
        ClientState::Play { username } => match data.play {
            Ok(Play::ClientScoreUpdate { score, health }) => relay_score(
                clients,
                username,
                score,
                health,
            ),
            Ok(_) => {
                let out = vec![server_opcode_error(index)];
                assert(view_outgoing(out@) =~= closing(index as int, reserved_opcode_reason()));
                out
            },
            Err(e) => {
                let ghost reason = e@;
                let out = vec![deserialize_error(e, index)];
                assert(view_outgoing(out@) =~= closing(index as int, reason));
                out
            },
        },
    }
}

/// Whether every client is either logging in or ready in the lobby.
fn everyone_ready(clients: &Vec<ClientState>) -> (b: bool)
    ensures
        b == all_ready_or_logging_in(view_states(clients@)),
{
    let ghost s = view_states(clients@);
    let mut j: usize = 0;
    while j < clients.len()
        invariant
            j <= clients.len(),
            s == view_states(clients@),
            forall|k: int| 0 <= k < j ==> (#[trigger] s[k] is Login || is_ready(s[k])),
        decreases clients.len() - j,
    {
        let fine = match &clients[j] {
            ClientState::Login => true,
            ClientState::Lobby { ready, .. } => *ready,
            ClientState::Play { .. } => false,
        };
        if !fine {
            assert(!(s[j as int] is Login || is_ready(s[j as int])));
            return false;
        }
        j = j + 1;
    }
    true
}

/// Tells every client that `user` has left and, when every remaining client
/// is logging in or ready, starts the game.
pub fn process_user_leave(clients: &mut Vec<ClientState>, user: &str) -> (out: Vec<Outgoing>)
    ensures
        (view_states(final(clients)@), view_outgoing(out@)) == leave_outcome(
            view_states(old(clients)@),
            user@,
        ),
{
    let ghost s = view_states(clients@);
    let starts = everyone_ready(clients);
    let mut out: Vec<Outgoing> = Vec::new();
    let mut j: usize = 0;
    while j < clients.len()
        invariant
            j <= clients.len(),
            s == view_states(clients@),
            view_outgoing(out@) == leave_deliveries(s, j as int, user@, starts),
        decreases clients.len() - j,
    {
        let notice = match &clients[j] {
            ClientState::Play { .. } => Frame::Play(Play::UserLeave { user: String::from_str(user) }),
            _ => Frame::Lobby(Lobby::UserLeft { user: String::from_str(user) }),
        };
        out.push(Outgoing { client: j, frame: notice });
        if starts {
            out.push(Outgoing { client: j, frame: Frame::Lobby(Lobby::GameStart) });
        }
        j = j + 1;
        assert(view_outgoing(out@) =~= leave_deliveries(s, j as int, user@, starts));
    }
    if starts {
        begin_game(clients);
    }
    out
}

/// Something that happened to the room's session.
#[derive(Debug, PartialEq, Eq)]
pub enum Event {
    /// A client connected; it takes the next position.
    Connected,
    /// The client at position `client` sent a text, decoded as `data`.
    Received { client: usize, data: Decoded },
    /// The client at position `client` sent a frame that is not text.
    OtherFrame { client: usize },
    /// The client at position `client` is gone: its stream ended, or its
    /// connection was reset without a closing handshake.
    Disconnected { client: usize },
    /// No client can connect any more.
    Closed,
}

/// The abstract value of an [`Event`].
pub enum EventView {
    Connected,
    Received { client: int, data: DecodedView },
    OtherFrame { client: int },
    Disconnected { client: int },
    Closed,
}

impl View for Event {
    type V = EventView;

    open spec fn view(&self) -> EventView {
        match self {
            Event::Connected => EventView::Connected,
            Event::Received { client, data } => EventView::Received {
                client: *client as int,
                data: data@,
            },
            Event::OtherFrame { client } => EventView::OtherFrame { client: *client as int },
            Event::Disconnected { client } => EventView::Disconnected { client: *client as int },
            Event::Closed => EventView::Closed,
        }
    }
}

/// What the session does after an event.
#[derive(Debug, PartialEq, Eq)]
pub enum Step {
    /// Send these frames, then wait for the next event.
    Continue(Vec<Outgoing>),
    /// Stop serving.
    Stop,
}

/// Whether the position that `e` names, if any, is one of `n` clients.
pub open spec fn event_fits(n: int, e: EventView) -> bool {
    match e {
        EventView::Received { client, .. } => 0 <= client < n,
        EventView::OtherFrame { client } => 0 <= client < n,
        EventView::Disconnected { client } => 0 <= client < n,
        _ => true,
    }
}

/// What the room `s` becomes, and what it sends, when the client at `i`
/// is gone: it leaves the list, and if it had a name the others learn it left.
pub open spec fn disconnect_outcome(s: Seq<StateView>, i: int) -> (Seq<StateView>, Seq<Delivery>) {
    let rest = s.remove(i);
    match name_of(s[i]) {
        Some(user) => leave_outcome(rest, user),
        None => (rest, Seq::empty()),
    }
}

/// What the room `s` becomes, and what it sends, after event `e`; `None`
/// when the session stops.
pub open spec fn session_outcome(s: Seq<StateView>, e: EventView) -> Option<
    (Seq<StateView>, Seq<Delivery>),
> {
    match e {
        EventView::Connected => Some((s.push(StateView::Login), Seq::empty())),
        EventView::Received { client, data } => Some(opcode_outcome(s, data, client)),
        EventView::OtherFrame { .. } => Some((s, Seq::empty())),
        EventView::Disconnected { client } => Some(disconnect_outcome(s, client)),
        EventView::Closed => None,
    }
}

/// Reacts to one event of the session.
pub fn session_step(clients: &mut Vec<ClientState>, event: Event) -> (step: Step)
    requires
        event_fits(old(clients)@.len() as int, event@),
    ensures
        match session_outcome(view_states(old(clients)@), event@) {
            Some((after, sent)) => step matches Step::Continue(out) && view_outgoing(out@) == sent
                && view_states(final(clients)@) == after,
            None => step is Stop && final(clients)@ == old(clients)@,
        },
{
    let ghost s = view_states(clients@);
    match event {
        Event::Connected => {
            clients.push(ClientState::Login);
            assert(view_states(clients@) =~= s.push(StateView::Login));
            let out: Vec<Outgoing> = Vec::new();
            assert(view_outgoing(out@) =~= Seq::<Delivery>::empty());
            Step::Continue(out)
        },
        Event::Received { client, data } => Step::Continue(process_opcode(clients, data, client)),
        Event::OtherFrame { .. } => {
            let out: Vec<Outgoing> = Vec::new();
            assert(view_outgoing(out@) =~= Seq::<Delivery>::empty());
            Step::Continue(out)
        },
        Event::Disconnected { client } => {
            let gone = clients.remove(client);
            assert(view_states(clients@) =~= s.remove(client as int));
            match gone {
                ClientState::Lobby { username, .. } => Step::Continue(
                    process_user_leave(clients, username.as_str()),
                ),
                ClientState::Play { username } => Step::Continue(
                    process_user_leave(clients, username.as_str()),
                ),
                ClientState::Login => {
                    let out: Vec<Outgoing> = Vec::new();
                    assert(view_outgoing(out@) =~= Seq::<Delivery>::empty());
                    Step::Continue(out)
                },
            }
        },
        Event::Closed => Step::Stop,
    }
}

} // verus!

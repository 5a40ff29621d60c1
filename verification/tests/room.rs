use funkin_server::protocol::{Lobby, Play, RoomLogin};
use funkin_server::room::{
    process_opcode, process_user_leave, server_opcode_error, deserialize_error, session_step,
    ClientState, Decoded, Event, Frame, Outgoing, Step,
};

fn lobby(name: &str, ready: bool) -> ClientState {
    ClientState::Lobby { username: name.to_string(), ready }
}

fn play(name: &str) -> ClientState {
    ClientState::Play { username: name.to_string() }
}

fn undecodable(why: &str) -> Result<RoomLogin, String> {
    Err(why.to_string())
}

fn login_as(name: &str) -> Decoded {
    Decoded {
        room_login: Ok(RoomLogin::ClientInformation { username: name.to_string() }),
        lobby: Err("not a lobby message".to_string()),
        play: Err("not a play message".to_string()),
    }
}

fn ready_message() -> Decoded {
    Decoded {
        room_login: undecodable("not a login message"),
        lobby: Ok(Lobby::ClientReady),
        play: Err("not a play message".to_string()),
    }
}

fn score_message(score: f64, health: f64) -> Decoded {
    Decoded {
        room_login: undecodable("not a login message"),
        lobby: Err("not a lobby message".to_string()),
        play: Ok(Play::ClientScoreUpdate { score: score.to_bits(), health: health.to_bits() }),
    }
}

fn to(client: usize, frame: Frame) -> Outgoing {
    Outgoing { client, frame }
}

fn names(list: &[&str]) -> Vec<String> {
    list.iter().map(|s| s.to_string()).collect()
}

#[test]
fn default_client_state_is_login() {
    assert_eq!(ClientState::default(), ClientState::Login);
}

#[test]
fn first_login_enters_lobby_with_an_empty_user_list() {
    let mut clients = vec![ClientState::Login];
    let out = process_opcode(&mut clients, login_as("alice"), 0);
    assert_eq!(clients, vec![lobby("alice", false)]);
    assert_eq!(out, vec![to(0, Frame::RoomLogin(RoomLogin::RoomInformation { users: vec![] }))]);
}

#[test]
fn login_lists_lobby_peers_and_notifies_them() {
    let mut clients = vec![lobby("alice", false), play("carol"), ClientState::Login, lobby("bob", false)];
    let out = process_opcode(&mut clients, login_as("dave"), 2);
    assert_eq!(clients[2], lobby("dave", false));
    assert_eq!(
        out,
        vec![
            to(2, Frame::RoomLogin(RoomLogin::RoomInformation { users: names(&["alice", "bob"]) })),
            to(0, Frame::Lobby(Lobby::UserJoin { user: "dave".to_string() })),
            to(3, Frame::Lobby(Lobby::UserJoin { user: "dave".to_string() })),
        ]
    );
}

#[test]
fn login_reports_the_ready_peers() {
    let mut clients = vec![lobby("alice", true), lobby("carol", false), lobby("dan", true), ClientState::Login];
    let out = process_opcode(&mut clients, login_as("bob"), 3);
    let join = Frame::Lobby(Lobby::UserJoin { user: "bob".to_string() });
    assert_eq!(
        out,
        vec![
            to(3, Frame::RoomLogin(RoomLogin::RoomInformation { users: names(&["alice", "carol", "dan"]) })),
            to(3, Frame::Lobby(Lobby::UsersReadied { users: names(&["alice", "dan"]) })),
            to(0, join.clone()),
            to(1, join.clone()),
            to(2, join),
        ]
    );
}

#[test]
fn login_with_taken_name_is_refused() {
    let mut clients = vec![play("alice"), ClientState::Login];
    let out = process_opcode(&mut clients, login_as("alice"), 1);
    assert_eq!(clients, vec![play("alice"), ClientState::Login]);
    assert_eq!(out, vec![to(1, Frame::RoomLogin(RoomLogin::NameTaken))]);
}

#[test]
fn server_message_from_client_is_a_protocol_error() {
    let mut clients = vec![ClientState::Login];
    let data = Decoded {
        room_login: Ok(RoomLogin::NameTaken),
        lobby: Err("x".to_string()),
        play: Err("y".to_string()),
    };
    let out = process_opcode(&mut clients, data, 0);
    assert_eq!(clients, vec![ClientState::Login]);
    assert_eq!(
        out,
        vec![to(0, Frame::Close { code: 1007, reason: "sent opcode reserved for server use".to_string() })]
    );
    assert_eq!(out[0], server_opcode_error(0));
}

#[test]
fn undecodable_text_closes_with_the_decoder_error() {
    let mut clients = vec![lobby("alice", false)];
    let data = Decoded {
        room_login: Ok(RoomLogin::ClientInformation { username: "bob".to_string() }),
        lobby: Err("missing field `opcode`".to_string()),
        play: Err("y".to_string()),
    };
    let out = process_opcode(&mut clients, data, 0);
    assert_eq!(clients, vec![lobby("alice", false)]);
    assert_eq!(out, vec![to(0, Frame::Close { code: 1007, reason: "missing field `opcode`".to_string() })]);
    assert_eq!(out[0], deserialize_error("missing field `opcode`".to_string(), 0));
}

#[test]
fn readiness_is_broadcast_to_the_lobby() {
    let mut clients = vec![lobby("alice", false), lobby("bob", false), play("carol")];
    let out = process_opcode(&mut clients, ready_message(), 0);
    assert_eq!(clients, vec![lobby("alice", true), lobby("bob", false), play("carol")]);
    let update = Frame::Lobby(Lobby::UsersReadied { users: names(&["alice"]) });
    assert_eq!(out, vec![to(0, update.clone()), to(1, update)]);
}

#[test]
fn last_ready_client_starts_the_game() {
    let mut clients = vec![lobby("alice", true), lobby("bob", false)];
    let out = process_opcode(&mut clients, ready_message(), 1);
    assert_eq!(clients, vec![play("alice"), play("bob")]);
    assert_eq!(
        out,
        vec![to(0, Frame::Lobby(Lobby::GameStart)), to(1, Frame::Lobby(Lobby::GameStart))]
    );
}

#[test]
fn lone_client_starts_the_game_when_it_toggles() {
    let mut clients = vec![lobby("alice", true)];
    let out = process_opcode(&mut clients, ready_message(), 0);
    assert_eq!(clients, vec![play("alice")]);
    assert_eq!(out, vec![to(0, Frame::Lobby(Lobby::GameStart))]);
}

#[test]
fn logging_in_client_holds_the_game_back() {
    let mut clients = vec![lobby("alice", false), ClientState::Login];
    let out = process_opcode(&mut clients, ready_message(), 0);
    assert_eq!(clients, vec![lobby("alice", true), ClientState::Login]);
    assert_eq!(out, vec![to(0, Frame::Lobby(Lobby::UsersReadied { users: names(&["alice"]) }))]);
}

#[test]
fn unready_clears_the_name_from_the_list() {
    let mut clients = vec![lobby("alice", true), lobby("bob", true), lobby("carol", false)];
    let out = process_opcode(&mut clients, ready_message(), 1);
    assert_eq!(clients[1], lobby("bob", false));
    let update = Frame::Lobby(Lobby::UsersReadied { users: names(&["alice"]) });
    assert_eq!(out, vec![to(0, update.clone()), to(1, update.clone()), to(2, update)]);
}

#[test]
fn score_is_relayed_to_every_player() {
    let mut clients = vec![play("alice"), lobby("bob", false), play("carol")];
    let out = process_opcode(&mut clients, score_message(1200.0, 1.5), 2);
    let update = Frame::Play(Play::UserScoreUpdate {
        user: "carol".to_string(),
        score: 1200.0f64.to_bits(),
        health: 1.5f64.to_bits(),
    });
    assert_eq!(out, vec![to(0, update.clone()), to(2, update)]);
    assert_eq!(clients, vec![play("alice"), lobby("bob", false), play("carol")]);
}

#[test]
fn departure_is_announced_to_everyone_in_their_state() {
    let mut clients = vec![lobby("alice", false), ClientState::Login, play("carol")];
    let out = process_opcode_free_leave(&mut clients, "bob");
    assert_eq!(clients, vec![lobby("alice", false), ClientState::Login, play("carol")]);
    let left = Frame::Lobby(Lobby::UserLeft { user: "bob".to_string() });
    let gone = Frame::Play(Play::UserLeave { user: "bob".to_string() });
    assert_eq!(out, vec![to(0, left.clone()), to(1, left), to(2, gone)]);
}

fn process_opcode_free_leave(clients: &mut Vec<ClientState>, user: &str) -> Vec<Outgoing> {
    process_user_leave(clients, user)
}

#[test]
fn departure_of_the_last_unready_client_starts_the_game() {
    let mut clients = vec![lobby("alice", true), ClientState::Login];
    let out = process_user_leave(&mut clients, "bob");
    assert_eq!(clients, vec![play("alice"), ClientState::Login]);
    let left = Frame::Lobby(Lobby::UserLeft { user: "bob".to_string() });
    let start = Frame::Lobby(Lobby::GameStart);
    assert_eq!(out, vec![to(0, left.clone()), to(0, start.clone()), to(1, left), to(1, start)]);
}

#[test]
fn session_connects_and_disconnects_clients() {
    let mut clients: Vec<ClientState> = Vec::new();
    assert_eq!(session_step(&mut clients, Event::Connected), Step::Continue(vec![]));
    assert_eq!(session_step(&mut clients, Event::Connected), Step::Continue(vec![]));
    assert_eq!(clients, vec![ClientState::Login, ClientState::Login]);
    let step = session_step(&mut clients, Event::Received { client: 1, data: login_as("bob") });
    assert!(matches!(step, Step::Continue(_)));
    assert_eq!(session_step(&mut clients, Event::OtherFrame { client: 0 }), Step::Continue(vec![]));
    let step = session_step(&mut clients, Event::Disconnected { client: 1 });
    assert_eq!(clients, vec![ClientState::Login]);
    assert_eq!(
        step,
        Step::Continue(vec![
            to(0, Frame::Lobby(Lobby::UserLeft { user: "bob".to_string() })),
            to(0, Frame::Lobby(Lobby::GameStart)),
        ])
    );
    assert_eq!(session_step(&mut clients, Event::Disconnected { client: 0 }), Step::Continue(vec![]));
    assert!(clients.is_empty());
    assert_eq!(session_step(&mut clients, Event::Closed), Step::Stop);
}

#[test]
fn names_stay_unique_over_a_session() {
    let mut clients: Vec<ClientState> = Vec::new();
    for _ in 0..3 {
        session_step(&mut clients, Event::Connected);
    }
    session_step(&mut clients, Event::Received { client: 0, data: login_as("alice") });
    session_step(&mut clients, Event::Received { client: 1, data: login_as("alice") });
    session_step(&mut clients, Event::Received { client: 2, data: login_as("bob") });
    assert_eq!(clients, vec![lobby("alice", false), ClientState::Login, lobby("bob", false)]);
}

#[test]
fn frames_reach_only_present_clients_after_a_departure() {
    let mut clients = vec![lobby("alice", false), lobby("bob", false), lobby("carol", false)];
    let step = session_step(&mut clients, Event::Disconnected { client: 0 });
    match step {
        Step::Continue(out) => {
            assert!(out.iter().all(|o| o.client < clients.len()));
            assert_eq!(out.len(), 2);
        }
        Step::Stop => panic!("the session goes on"),
    }
}

#[test]
fn duplicates_are_equal() {
    let frame = Frame::RoomLogin(RoomLogin::RoomInformation { users: names(&["a", "b"]) });
    assert_eq!(frame.duplicate(), frame);
    let state = lobby("x", true);
    assert_eq!(state.duplicate(), state);
    assert_eq!(state.username(), Some(&"x".to_string()));
    assert!(state.is_lobby() && state.is_ready());
}

#[test]
fn wrong_phase_message_closes_only_the_sender() {
    let mut clients = vec![lobby("alice", true), lobby("bob", false), play("carol")];
    let out = process_opcode(&mut clients, score_message(1.0, 2.0), 1);
    assert_eq!(clients, vec![lobby("alice", true), lobby("bob", false), play("carol")]);
    assert_eq!(out.len(), 1);
    assert_eq!(out[0].client, 1);
    assert!(matches!(out[0].frame, Frame::Close { code: 1007, .. }));
}

#[test]
fn clients_keep_names_and_phases_over_a_run_with_departures() {
    let mut clients: Vec<ClientState> = Vec::new();
    for _ in 0..3 {
        session_step(&mut clients, Event::Connected);
    }
    session_step(&mut clients, Event::Received { client: 0, data: login_as("alice") });
    session_step(&mut clients, Event::Received { client: 1, data: login_as("bob") });
    session_step(&mut clients, Event::Received { client: 2, data: login_as("carol") });
    session_step(&mut clients, Event::Received { client: 0, data: ready_message() });
    session_step(&mut clients, Event::Disconnected { client: 1 });
    assert_eq!(clients, vec![lobby("alice", true), lobby("carol", false)]);
    session_step(&mut clients, Event::Received { client: 1, data: ready_message() });
    assert_eq!(clients, vec![play("alice"), play("carol")]);
    session_step(&mut clients, Event::Received { client: 1, data: login_as("dave") });
    session_step(&mut clients, Event::Disconnected { client: 0 });
    assert_eq!(clients, vec![play("carol")]);
}

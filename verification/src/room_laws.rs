//! Properties of the room that hold across its operations.

use vstd::prelude::*;
use crate::protocol::{LobbyView, RoomLoginView};
use crate::room::{
    Audience, Delivery, DecodedView, EventView, FrameView, StateView, deliveries, departure_notice,
    event_fits, includes, is_ready, leave_deliveries, leave_outcome, name_of, name_taken,
    names_unique, names_where, opcode_outcome, promoted, protocol_error_code, session_outcome,
    start_game,
};

verus! {

/// How far a client has come: logging in, in the lobby, or playing.
pub open spec fn phase_rank(st: StateView) -> int {
    match st {
        StateView::Login => 0,
        StateView::Lobby { .. } => 1,
        StateView::Play { .. } => 2,
    }
}

/// Every frame of `sent` is addressed to one of the `n` clients.
pub open spec fn addressed_within(sent: Seq<Delivery>, n: int) -> bool {
    forall|k: int| 0 <= k < sent.len() ==> 0 <= #[trigger] sent[k].client < n
}

/// `after` keeps every client of `before` in place, with its name, and no
/// client goes back to an earlier phase.
pub open spec fn progresses(before: Seq<StateView>, after: Seq<StateView>) -> bool {
    &&& after.len() == before.len()
    &&& forall|j: int|
        0 <= j < before.len() ==> phase_rank(#[trigger] before[j]) <= phase_rank(after[j])
    &&& forall|j: int|
        0 <= j < before.len() && (#[trigger] name_of(before[j])) is Some ==> name_of(after[j])
            == name_of(before[j])
}

/// When some lobby client of `before` is playing in `after`, no client of
/// `after` is left in the lobby.
pub open spec fn starts_together(before: Seq<StateView>, after: Seq<StateView>) -> bool {
    (exists|j: int| 0 <= j < before.len() && #[trigger] before[j] is Lobby && after[j] is Play)
        ==> forall|k: int| 0 <= k < after.len() ==> !(#[trigger] after[k] is Lobby)
}

proof fn lemma_same_names_keep_unique(s: Seq<StateView>, t: Seq<StateView>)
    requires
        names_unique(s),
        t.len() == s.len(),
        forall|j: int| 0 <= j < s.len() ==> name_of(#[trigger] t[j]) == name_of(s[j]),
    ensures
        names_unique(t),
{
    assert forall|j: int, k: int|
        0 <= j < t.len() && 0 <= k < t.len() && j != k && (#[trigger] name_of(t[j])) is Some
        implies name_of(t[j]) != #[trigger] name_of(t[k]) by {
        assert(name_of(t[j]) == name_of(s[j]));
        assert(name_of(t[k]) == name_of(s[k]));
    }
}

proof fn lemma_start_game_names(s: Seq<StateView>)
    ensures
        start_game(s).len() == s.len(),
        forall|j: int| 0 <= j < s.len() ==> name_of(#[trigger] start_game(s)[j]) == name_of(s[j]),
        forall|j: int|
            0 <= j < s.len() ==> phase_rank(#[trigger] start_game(s)[j]) >= phase_rank(s[j]),
        forall|j: int| 0 <= j < s.len() ==> !(#[trigger] start_game(s)[j] is Lobby),
{
    assert forall|j: int| 0 <= j < s.len() implies name_of(#[trigger] start_game(s)[j]) == name_of(
        s[j],
    ) && phase_rank(start_game(s)[j]) >= phase_rank(s[j]) && !(start_game(s)[j] is Lobby) by {
        assert(start_game(s)[j] == promoted(s[j]));
    }
}

proof fn lemma_deliveries_within(s: Seq<StateView>, n: int, a: Audience, f: crate::room::FrameView)
    ensures
        addressed_within(deliveries(s, n, a, f), n),
    decreases n,
{
    if n > 0 {
        lemma_deliveries_within(s, n - 1, a, f);
        let prev = deliveries(s, n - 1, a, f);
        assert forall|k: int| 0 <= k < deliveries(s, n, a, f).len() implies 0 <= #[trigger] deliveries(
            s,
            n,
            a,
            f,
        )[k].client < n by {
            if k < prev.len() {
                assert(deliveries(s, n, a, f)[k] == prev[k]);
            }
        }
    }
}

proof fn lemma_leave_deliveries_within(s: Seq<StateView>, n: int, user: Seq<char>, starts: bool)
    ensures
        addressed_within(leave_deliveries(s, n, user, starts), n),
    decreases n,
{
    if n > 0 {
        lemma_leave_deliveries_within(s, n - 1, user, starts);
        let prev = leave_deliveries(s, n - 1, user, starts);
        let all = leave_deliveries(s, n, user, starts);
        assert forall|k: int| 0 <= k < all.len() implies 0 <= #[trigger] all[k].client < n by {
            if k < prev.len() {
                assert(all[k] == prev[k]);
            }
        }
    }
}

/// No two clients ever share a username: if none do before an event, none
/// do after it. A login under a name in use is refused, and nothing else
/// gives a client a name.
pub proof fn lemma_names_stay_unique(s: Seq<StateView>, e: EventView)
    requires
        names_unique(s),
        event_fits(s.len() as int, e),
    ensures
        session_outcome(s, e) matches Some((after, _sent)) ==> names_unique(after),
{
    match e {
        EventView::Connected => {
            let t = s.push(StateView::Login);
            assert forall|j: int, k: int|
                0 <= j < t.len() && 0 <= k < t.len() && j != k && (#[trigger] name_of(
                    t[j],
                )) is Some implies name_of(t[j]) != #[trigger] name_of(t[k]) by {
                if k < s.len() && j < s.len() {
                    assert(t[j] == s[j] && t[k] == s[k]);
                }
            }
        },
        EventView::Received { client, data } => {
            lemma_opcode_keeps_names_unique(s, data, client);
        },
        EventView::OtherFrame { .. } => {},
        EventView::Disconnected { client } => {
            let rest = s.remove(client);
            assert forall|j: int, k: int|
                0 <= j < rest.len() && 0 <= k < rest.len() && j != k && (#[trigger] name_of(
                    rest[j],
                )) is Some implies name_of(rest[j]) != #[trigger] name_of(rest[k]) by {
                let jj = if j < client { j } else { j + 1 };
                let kk = if k < client { k } else { k + 1 };
                assert(rest[j] == s[jj] && rest[k] == s[kk]);
            }
            match name_of(s[client]) {
                Some(user) => {
                    let starts = crate::room::all_ready_or_logging_in(rest);
                    if starts {
                        lemma_start_game_names(rest);
                        lemma_same_names_keep_unique(rest, start_game(rest));
                    }
                },
                None => {},
            }
        },
        EventView::Closed => {},
    }
}

proof fn lemma_opcode_keeps_names_unique(s: Seq<StateView>, d: DecodedView, i: int)
    requires
        names_unique(s),
        0 <= i < s.len(),
    ensures
        names_unique(opcode_outcome(s, d, i).0),
{
    lemma_opcode_progresses(s, d, i);
    let after = opcode_outcome(s, d, i).0;
    match s[i] {
        StateView::Login => match d.room_login {
            Ok(crate::protocol::RoomLoginView::ClientInformation { username }) => {
                if !name_taken(s, username) {
                    assert forall|j: int, k: int|
                        0 <= j < after.len() && 0 <= k < after.len() && j != k && (#[trigger] name_of(
                            after[j],
                        )) is Some implies name_of(after[j]) != #[trigger] name_of(after[k]) by {
                        if j == i {
                            assert(name_of(after[k]) == name_of(s[k]));
                            if name_of(s[k]) == Some(username) {
                                assert(name_taken(s, username));
                            }
                        } else if k == i {
                            assert(name_of(after[j]) == name_of(s[j]));
                            if name_of(s[j]) == Some(username) {
                                assert(name_taken(s, username));
                            }
                        } else {
                            assert(name_of(after[j]) == name_of(s[j]));
                            assert(name_of(after[k]) == name_of(s[k]));
                        }
                    }
                }
            },
            _ => {},
        },
        _ => {
            assert forall|j: int| 0 <= j < s.len() implies name_of(#[trigger] after[j]) == name_of(
                s[j],
            ) by {
                if name_of(s[j]) is None {
                    assert(s[j] is Login);
                    assert(j != i);
                }
            }
            lemma_same_names_keep_unique(s, after);
        },
    }
}

/// A client's message keeps every client in its place under its name, and
/// no client goes back from play to the lobby or from the lobby to login.
pub proof fn lemma_opcode_progresses(s: Seq<StateView>, d: DecodedView, i: int)
    requires
        0 <= i < s.len(),
    ensures
        progresses(s, opcode_outcome(s, d, i).0),
        forall|j: int|
            0 <= j < s.len() && j != i ==> (#[trigger] opcode_outcome(s, d, i).0[j] is Lobby ==> s[j] is Lobby),
{
    let after = opcode_outcome(s, d, i).0;
    match s[i] {
        StateView::Lobby { username, ready } => match d.lobby {
            Ok(crate::protocol::LobbyView::ClientReady) => {
                let s1 = s.update(i, StateView::Lobby { username, ready: !ready });
                lemma_start_game_names(s1);
            },
            _ => {},
        },
        _ => {},
    }
}

/// When a client's message starts the game for one lobby client, it starts
/// it for all of them: no client is left in the lobby.
pub proof fn lemma_opcode_starts_together(s: Seq<StateView>, d: DecodedView, i: int)
    requires
        0 <= i < s.len(),
    ensures
        starts_together(s, opcode_outcome(s, d, i).0),
{
    let after = opcode_outcome(s, d, i).0;
    match s[i] {
        StateView::Lobby { username, ready } => match d.lobby {
            Ok(crate::protocol::LobbyView::ClientReady) => {
                let s1 = s.update(i, StateView::Lobby { username, ready: !ready });
                lemma_start_game_names(s1);
            },
            _ => {},
        },
        _ => {},
    }
}

/// When the departure of a user starts the game for one lobby client, it
/// starts it for all of them; names and places are kept.
pub proof fn lemma_leave_starts_together(s: Seq<StateView>, user: Seq<char>)
    ensures
        starts_together(s, leave_outcome(s, user).0),
        progresses(s, leave_outcome(s, user).0),
{
    lemma_start_game_names(s);
}

/// Every frame the room sends after an event is addressed to a client that
/// is in the room once the event is handled.
pub proof fn lemma_frames_reach_present_clients(s: Seq<StateView>, e: EventView)
    requires
        event_fits(s.len() as int, e),
    ensures
        session_outcome(s, e) matches Some((after, sent)) ==> addressed_within(
            sent,
            after.len() as int,
        ),
{
    match e {
        EventView::Received { client, data } => {
            let i = client;
            lemma_opcode_progresses(s, data, i);
            let n = s.len() as int;
            match s[i] {
                StateView::Login => match data.room_login {
                    Ok(crate::protocol::RoomLoginView::ClientInformation { username }) => {
                        if !name_taken(s, username) {
                            let iu = i as usize;
                            lemma_deliveries_within(
                                s,
                                n,
                                Audience::LobbyExcept(iu),
                                crate::room::FrameView::Lobby(
                                    crate::protocol::LobbyView::UserJoin { user: username },
                                ),
                            );
                        }
                    },
                    _ => {},
                },
                StateView::Lobby { username, ready } => match data.lobby {
                    Ok(crate::protocol::LobbyView::ClientReady) => {
                        let s1 = s.update(i, StateView::Lobby { username, ready: !ready });
                        let starts = crate::room::game_starts(s1);
                        let message = if starts {
                            crate::protocol::LobbyView::GameStart
                        } else {
                            crate::protocol::LobbyView::UsersReadied {
                                users: crate::room::names_where(s1, n, Audience::Ready),
                            }
                        };
                        lemma_deliveries_within(
                            s1,
                            n,
                            Audience::InLobby,
                            crate::room::FrameView::Lobby(message),
                        );
                    },
                    _ => {},
                },
                StateView::Play { username } => match data.play {
                    Ok(crate::protocol::PlayView::ClientScoreUpdate { score, health }) => {
                        lemma_deliveries_within(
                            s,
                            n,
                            Audience::InPlay,
                            crate::room::FrameView::Play(
                                crate::protocol::PlayView::UserScoreUpdate {
                                    user: username,
                                    score,
                                    health,
                                },
                            ),
                        );
                    },
                    _ => {},
                },
            }
        },
        EventView::Disconnected { client } => {
            let rest = s.remove(client);
            match name_of(s[client]) {
                Some(user) => {
                    let starts = crate::room::all_ready_or_logging_in(rest);
                    lemma_leave_deliveries_within(rest, rest.len() as int, user, starts);
                    lemma_start_game_names(rest);
                },
                None => {},
            }
        },
        _ => {},
    }
}

/// The only ways a client's message changes the state of its sender:
/// logging in enters the lobby, not ready; toggling flips the readiness; a
/// game start makes the sender play.
pub open spec fn sender_change(before: StateView, after: StateView) -> bool {
    ||| after == before
    ||| (before is Login && after is Lobby && !after->Lobby_ready)
    ||| (before is Lobby && after == (StateView::Lobby {
        username: before->Lobby_username,
        ready: !before->Lobby_ready,
    }))
    ||| (before is Lobby && after == (StateView::Play { username: before->Lobby_username }))
}

proof fn lemma_deliveries_frames(s: Seq<StateView>, n: int, a: Audience, f: FrameView)
    ensures
        forall|k: int| 0 <= k < deliveries(s, n, a, f).len() ==> (#[trigger] deliveries(s, n, a, f)[k]).frame == f,
    decreases n,
{
    if n > 0 {
        lemma_deliveries_frames(s, n - 1, a, f);
        let prev = deliveries(s, n - 1, a, f);
        assert forall|k: int| 0 <= k < deliveries(s, n, a, f).len() implies (#[trigger] deliveries(
            s,
            n,
            a,
            f,
        )[k]).frame == f by {
            if k < prev.len() {
                assert(deliveries(s, n, a, f)[k] == prev[k]);
            }
        }
    }
}

/// A client's message changes nothing but its sender's login, its sender's
/// readiness, or, when the game starts, every lobby client into a player.
/// A message that breaks the protocol is answered by one frame only, closing
/// the sender with code 1007, and changes nothing; no other answer closes.
pub proof fn lemma_opcode_changes_only(s: Seq<StateView>, d: DecodedView, i: int)
    requires
        0 <= i < s.len(),
    ensures
        opcode_outcome(s, d, i).0.len() == s.len(),
        forall|j: int|
            0 <= j < s.len() && j != i ==> (#[trigger] opcode_outcome(s, d, i).0[j] == s[j]
                || opcode_outcome(s, d, i).0[j] == promoted(s[j])),
        sender_change(s[i], opcode_outcome(s, d, i).0[i]),
        forall|k: int|
            0 <= k < opcode_outcome(s, d, i).1.len() && (#[trigger] opcode_outcome(s, d, i).1[k]).frame is Close
                ==> opcode_outcome(s, d, i).1.len() == 1 && opcode_outcome(s, d, i).1[k].client == i
                && opcode_outcome(s, d, i).1[k].frame->Close_code == protocol_error_code()
                && opcode_outcome(s, d, i).0 == s,
{
    let n = s.len() as int;
    match s[i] {
        StateView::Login => match d.room_login {
            Ok(crate::protocol::RoomLoginView::ClientInformation { username }) => {
                if !name_taken(s, username) {
                    let iu = i as usize;
                    lemma_deliveries_frames(
                        s,
                        n,
                        Audience::LobbyExcept(iu),
                        FrameView::Lobby(crate::protocol::LobbyView::UserJoin { user: username }),
                    );
                    let sent = opcode_outcome(s, d, i).1;
                    let tail = deliveries(
                        s,
                        n,
                        Audience::LobbyExcept(iu),
                        FrameView::Lobby(crate::protocol::LobbyView::UserJoin { user: username }),
                    );
                    assert forall|k: int| 0 <= k < sent.len() implies !((#[trigger] sent[k]).frame is Close) by {
                        if k >= sent.len() - tail.len() {
                            assert(sent[k] == tail[k - (sent.len() - tail.len())]);
                        }
                    }
                }
            },
            _ => {},
        },
        StateView::Lobby { username, ready } => match d.lobby {
            Ok(crate::protocol::LobbyView::ClientReady) => {
                let s1 = s.update(i, StateView::Lobby { username, ready: !ready });
                let starts = crate::room::game_starts(s1);
                let message = if starts {
                    crate::protocol::LobbyView::GameStart
                } else {
                    crate::protocol::LobbyView::UsersReadied {
                        users: crate::room::names_where(s1, n, Audience::Ready),
                    }
                };
                lemma_deliveries_frames(s1, n, Audience::InLobby, FrameView::Lobby(message));
                lemma_start_game_names(s1);
                assert(start_game(s1)[i] == promoted(s1[i]));
                assert forall|j: int| 0 <= j < s.len() && j != i implies start_game(s1)[j] == promoted(s[j]) by {
                    assert(start_game(s1)[j] == promoted(s1[j]));
                }
            },
            _ => {},
        },
        StateView::Play { username } => match d.play {
            Ok(crate::protocol::PlayView::ClientScoreUpdate { score, health }) => {
                lemma_deliveries_frames(
                    s,
                    n,
                    Audience::InPlay,
                    FrameView::Play(
                        crate::protocol::PlayView::UserScoreUpdate { user: username, score, health },
                    ),
                );
            },
            _ => {},
        },
    }
}

/// Where the client at position `j` after event `e` was before it, in a room
/// of `n` clients; `-1` for the client that `e` connects.
pub open spec fn origin(n: int, e: EventView, j: int) -> int {
    match e {
        EventView::Connected => if j < n {
            j
        } else {
            -1
        },
        EventView::Disconnected { client } => if j < client {
            j
        } else {
            j + 1
        },
        _ => j,
    }
}

/// One event keeps the room's clients: a connection adds one client, last,
/// logging in; a departure removes the departed client only; no other event
/// adds or removes one. Every client that stays keeps its name and never
/// goes back to an earlier phase.
pub proof fn lemma_step_keeps_clients(s: Seq<StateView>, e: EventView)
    requires
        event_fits(s.len() as int, e),
    ensures
        session_outcome(s, e) matches Some((after, _sent)) ==> {
            &&& after.len() == s.len() + (if e is Connected { 1int } else { 0 }) - (if e is Disconnected {
                1int
            } else {
                0
            })
            &&& forall|j: int|
                0 <= j < after.len() ==> {
                    let o = #[trigger] origin(s.len() as int, e, j);
                    &&& o == -1 ==> after[j] is Login
                    &&& o != -1 ==> {
                        &&& 0 <= o < s.len()
                        &&& phase_rank(s[o]) <= phase_rank(after[j])
                        &&& name_of(s[o]) is Some ==> name_of(after[j]) == name_of(s[o])
                    }
                }
        },
{
    match e {
        EventView::Received { client, data } => {
            lemma_opcode_progresses(s, data, client);
        },
        EventView::Disconnected { client } => {
            let rest = s.remove(client);
            assert forall|j: int| 0 <= j < rest.len() implies #[trigger] rest[j] == s[origin(
                s.len() as int,
                e,
                j,
            )] by {}
            match name_of(s[client]) {
                Some(user) => {
                    lemma_leave_starts_together(rest, user);
                },
                None => {},
            }
        },
        _ => {},
    }
}

/// The room after the events `es`, one after another, from `s`; the run ends
/// at an event that stops the session.
pub open spec fn run(s: Seq<StateView>, es: Seq<EventView>) -> Seq<StateView>
    decreases es.len(),
{
    if es.len() == 0 {
        s
    } else {
        match session_outcome(s, es[0]) {
            Some((after, _sent)) => run(after, es.drop_first()),
            None => s,
        }
    }
}

/// Whether every event of `es` names a client present when it happens.
pub open spec fn run_fits(s: Seq<StateView>, es: Seq<EventView>) -> bool
    decreases es.len(),
{
    if es.len() == 0 {
        true
    } else {
        event_fits(s.len() as int, es[0]) && match session_outcome(s, es[0]) {
            Some((after, _sent)) => run_fits(after, es.drop_first()),
            None => true,
        }
    }
}

/// Where the client at position `j` after the events `es` was in `s`; `-1`
/// for a client that connected during the run.
pub open spec fn run_origin(s: Seq<StateView>, es: Seq<EventView>, j: int) -> int
    decreases es.len(),
{
    if es.len() == 0 {
        j
    } else {
        match session_outcome(s, es[0]) {
            Some((after, _sent)) => {
                let o = run_origin(after, es.drop_first(), j);
                if o == -1 {
                    -1
                } else {
                    origin(s.len() as int, es[0], o)
                }
            },
            None => j,
        }
    }
}

/// Over any run of the session, a client present at its start and at its
/// end is the same client: it keeps its name and never goes back from play
/// to the lobby or from the lobby to logging in.
pub proof fn lemma_run_keeps_clients(s: Seq<StateView>, es: Seq<EventView>, j: int)
    requires
        run_fits(s, es),
        0 <= j < run(s, es).len(),
    ensures
        run_origin(s, es, j) != -1 ==> {
            let o = run_origin(s, es, j);
            &&& 0 <= o < s.len()
            &&& phase_rank(s[o]) <= phase_rank(run(s, es)[j])
            &&& name_of(s[o]) is Some ==> name_of(run(s, es)[j]) == name_of(s[o])
        },
    decreases es.len(),
{
    if es.len() > 0 {
        let e = es[0];
        lemma_step_keeps_clients(s, e);
        match session_outcome(s, e) {
            Some((after, _sent)) => {
                lemma_run_keeps_clients(after, es.drop_first(), j);
                let o1 = run_origin(after, es.drop_first(), j);
                if o1 != -1 {
                    let o = origin(s.len() as int, e, o1);
                    assert(0 <= o1 < after.len());
                    if o != -1 {
                        assert(phase_rank(s[o]) <= phase_rank(after[o1]));
                    }
                }
            },
            None => {},
        }
    }
}

/// The frames `deliveries(s, n, a, f)` carry `f`, each to one of the first
/// `n` clients that belongs to `a`, and every such client gets one.
proof fn lemma_deliveries_reach(s: Seq<StateView>, n: int, a: Audience, f: FrameView)
    requires
        0 <= n <= s.len(),
    ensures
        forall|k: int|
            0 <= k < deliveries(s, n, a, f).len() ==> {
                let c = (#[trigger] deliveries(s, n, a, f)[k]).client;
                &&& 0 <= c < n
                &&& includes(a, c, s[c])
                &&& deliveries(s, n, a, f)[k].frame == f
            },
        forall|j: int|
            0 <= j < n && #[trigger] includes(a, j, s[j]) ==> exists|k: int|
                0 <= k < deliveries(s, n, a, f).len() && (#[trigger] deliveries(s, n, a, f)[k]).client
                    == j,
    decreases n,
{
    if n > 0 {
        lemma_deliveries_reach(s, n - 1, a, f);
        let prev = deliveries(s, n - 1, a, f);
        let all = deliveries(s, n, a, f);
        assert forall|k: int| 0 <= k < all.len() implies {
            let c = (#[trigger] all[k]).client;
            &&& 0 <= c < n
            &&& includes(a, c, s[c])
            &&& all[k].frame == f
        } by {
            if k < prev.len() {
                assert(all[k] == prev[k]);
            }
        }
        assert forall|j: int| 0 <= j < n && #[trigger] includes(a, j, s[j]) implies exists|k: int|
            0 <= k < all.len() && (#[trigger] all[k]).client == j by {
            if j < n - 1 {
                let k = choose|k: int| 0 <= k < prev.len() && (#[trigger] prev[k]).client == j;
                assert(all[k] == prev[k]);
            } else {
                assert(all[prev.len() as int].client == j);
            }
        }
    }
}

/// Of the first `n` clients of `s`, as many are named ready as are ready,
/// and all of them are named exactly when all of them are ready.
proof fn lemma_ready_names_count(s: Seq<StateView>, n: int)
    requires
        0 <= n <= s.len(),
    ensures
        names_where(s, n, Audience::Ready).len() <= n,
        names_where(s, n, Audience::Ready).len() == n <==> forall|j: int|
            0 <= j < n ==> #[trigger] is_ready(s[j]),
    decreases n,
{
    if n > 0 {
        lemma_ready_names_count(s, n - 1);
        if names_where(s, n, Audience::Ready).len() == n {
            assert(is_ready(s[n - 1]));
            assert forall|j: int| 0 <= j < n implies #[trigger] is_ready(s[j]) by {
                if j < n - 1 {
                    assert(names_where(s, n - 1, Audience::Ready).len() == n - 1);
                }
            }
        }
        if forall|j: int| 0 <= j < n ==> #[trigger] is_ready(s[j]) {
            assert(is_ready(s[n - 1]));
            assert(forall|j: int| 0 <= j < n - 1 ==> #[trigger] is_ready(s[j]));
        }
    }
}

/// The room after the lobby client at `i` toggles its readiness, before the
/// game may start.
pub open spec fn toggled(s: Seq<StateView>, i: int) -> Seq<StateView> {
    s.update(i, StateView::Lobby { username: s[i]->Lobby_username, ready: !s[i]->Lobby_ready })
}

/// A lobby client's toggle starts the game exactly when, after the toggle,
/// the room holds one client only or every client of the room is a ready
/// lobby client. Then every lobby client plays and is told the game starts;
/// otherwise nothing changes but the sender's readiness, and every lobby
/// client is told the names of the ready clients. Only lobby clients are
/// told, each of them.
pub proof fn lemma_toggle_starts_when_all_ready(s: Seq<StateView>, d: DecodedView, i: int)
    requires
        0 <= i < s.len(),
        s[i] is Lobby,
        d.lobby == Ok::<LobbyView, Seq<char>>(LobbyView::ClientReady),
    ensures
        ({
            let s1 = toggled(s, i);
            let after = opcode_outcome(s, d, i).0;
            let sent = opcode_outcome(s, d, i).1;
            let starts = s1.len() <= 1 || forall|j: int| 0 <= j < s1.len() ==> #[trigger] is_ready(s1[j]);
            &&& starts ==> after == start_game(s1)
            &&& starts ==> forall|k: int|
                0 <= k < sent.len() ==> (#[trigger] sent[k]).frame == FrameView::Lobby(
                    LobbyView::GameStart,
                )
            &&& !starts ==> after == s1
            &&& !starts ==> forall|k: int|
                0 <= k < sent.len() ==> (#[trigger] sent[k]).frame == FrameView::Lobby(
                    LobbyView::UsersReadied {
                        users: names_where(s1, s1.len() as int, Audience::Ready),
                    },
                )
            &&& forall|k: int|
                0 <= k < sent.len() ==> 0 <= (#[trigger] sent[k]).client < s1.len() && s1[sent[k].client] is Lobby
            &&& forall|j: int|
                0 <= j < s1.len() && #[trigger] s1[j] is Lobby ==> exists|k: int|
                    0 <= k < sent.len() && (#[trigger] sent[k]).client == j
        }),
{
    let s1 = toggled(s, i);
    let n = s1.len() as int;
    lemma_ready_names_count(s1, n);
    let starts = crate::room::game_starts(s1);
    let message = if starts {
        LobbyView::GameStart
    } else {
        LobbyView::UsersReadied { users: names_where(s1, n, Audience::Ready) }
    };
    lemma_deliveries_reach(s1, n, Audience::InLobby, FrameView::Lobby(message));
    let sent = opcode_outcome(s, d, i).1;
    assert(sent == deliveries(s1, n, Audience::InLobby, FrameView::Lobby(message)));
    assert(starts <==> (n <= 1 || forall|j: int| 0 <= j < n ==> #[trigger] is_ready(s1[j])));
    assert forall|j: int| 0 <= j < n && #[trigger] s1[j] is Lobby implies exists|k: int|
        0 <= k < sent.len() && (#[trigger] sent[k]).client == j by {
        assert(includes(Audience::InLobby, j, s1[j]));
    }
}

/// A login under a name that no client of the room holds succeeds: the
/// client enters the lobby under that name, not ready, and is first told
/// the other lobby users. A login under a name that some client holds is
/// refused with a name-taken message alone, and nothing changes.
pub proof fn lemma_login_refused_only_for_held_names(
    s: Seq<StateView>,
    d: DecodedView,
    i: int,
    name: Seq<char>,
)
    requires
        0 <= i < s.len(),
        s[i] is Login,
        d.room_login == Ok::<RoomLoginView, Seq<char>>(
            RoomLoginView::ClientInformation { username: name },
        ),
    ensures
        (forall|j: int| 0 <= j < s.len() ==> name_of(#[trigger] s[j]) != Some(name)) ==> {
            &&& opcode_outcome(s, d, i).0 == s.update(
                i,
                StateView::Lobby { username: name, ready: false },
            )
            &&& opcode_outcome(s, d, i).1[0] == Delivery {
                client: i,
                frame: FrameView::RoomLogin(
                    RoomLoginView::RoomInformation {
                        users: names_where(s, s.len() as int, Audience::LobbyExcept(i as usize)),
                    },
                ),
            }
            &&& forall|k: int|
                0 <= k < opcode_outcome(s, d, i).1.len() ==> (#[trigger] opcode_outcome(
                    s,
                    d,
                    i,
                ).1[k]).frame != FrameView::RoomLogin(RoomLoginView::NameTaken)
        },
        (exists|j: int| 0 <= j < s.len() && name_of(#[trigger] s[j]) == Some(name)) ==> {
            &&& opcode_outcome(s, d, i).0 == s
            &&& opcode_outcome(s, d, i).1 == seq![
                Delivery { client: i, frame: FrameView::RoomLogin(RoomLoginView::NameTaken) },
            ]
        },
{
    if !name_taken(s, name) {
        let iu = i as usize;
        let n = s.len() as int;
        let join = FrameView::Lobby(LobbyView::UserJoin { user: name });
        lemma_deliveries_frames(s, n, Audience::LobbyExcept(iu), join);
        let sent = opcode_outcome(s, d, i).1;
        let tail = deliveries(s, n, Audience::LobbyExcept(iu), join);
        assert forall|k: int| 0 <= k < sent.len() implies (#[trigger] sent[k]).frame
            != FrameView::RoomLogin(RoomLoginView::NameTaken) by {
            if k >= sent.len() - tail.len() {
                assert(sent[k] == tail[k - (sent.len() - tail.len())]);
            }
        }
    }
}

/// The frame that tells the client at `k` of `s` that `user` left.
pub open spec fn notice_to(s: Seq<StateView>, k: int, user: Seq<char>) -> Delivery {
    Delivery { client: k, frame: departure_notice(s[k], user) }
}

/// The frame that tells the client at `k` that the game starts.
pub open spec fn start_to(k: int) -> Delivery {
    Delivery { client: k, frame: FrameView::Lobby(LobbyView::GameStart) }
}

/// Whether `sent` tells every client of `s` that `user` left.
pub open spec fn tells_everyone(sent: Seq<Delivery>, s: Seq<StateView>, user: Seq<char>) -> bool {
    forall|j: int|
        #![trigger notice_to(s, j, user)]
        0 <= j < s.len() ==> exists|k: int| 0 <= k < sent.len() && #[trigger] sent[k] == notice_to(s, j, user)
}

/// The frames sent to the first `n` clients when `user` has left: each is
/// told of the departure in its own state, in position order, and when
/// `starts`, each is told right after that the game starts.
proof fn lemma_leave_deliveries_shape(s: Seq<StateView>, n: int, user: Seq<char>, starts: bool)
    requires
        0 <= n <= s.len(),
    ensures
        !starts ==> leave_deliveries(s, n, user, starts).len() == n,
        !starts ==> forall|k: int|
            0 <= k < n ==> #[trigger] leave_deliveries(s, n, user, starts)[k] == notice_to(s, k, user),
        starts ==> leave_deliveries(s, n, user, starts).len() == 2 * n,
        starts ==> forall|k: int|
            #![trigger notice_to(s, k, user)]
            0 <= k < n ==> leave_deliveries(s, n, user, starts)[2 * k] == notice_to(s, k, user)
                && leave_deliveries(s, n, user, starts)[2 * k + 1] == start_to(k),
    decreases n,
{
    if n > 0 {
        lemma_leave_deliveries_shape(s, n - 1, user, starts);
        let prev = leave_deliveries(s, n - 1, user, starts);
        let all = leave_deliveries(s, n, user, starts);
        if starts {
            assert forall|k: int| #![trigger notice_to(s, k, user)] 0 <= k < n implies all[2 * k]
                == notice_to(s, k, user) && all[2 * k + 1] == start_to(k) by {
                if k < n - 1 {
                    assert(all[2 * k] == prev[2 * k]);
                    assert(all[2 * k + 1] == prev[2 * k + 1]);
                }
            }
        } else {
            assert forall|k: int| 0 <= k < n implies #[trigger] all[k] == notice_to(s, k, user) by {
                if k < n - 1 {
                    assert(all[k] == prev[k]);
                }
            }
        }
    }
}

/// Whether `st` keeps the game from starting when someone leaves: it is
/// neither logging in nor a ready lobby client.
pub open spec fn holds_back(st: StateView) -> bool {
    !(st is Login || (st is Lobby && st->Lobby_ready))
}

/// When `user` has left the room `s`: if some remaining client is playing,
/// or is in the lobby and not ready, each remaining client is told of the
/// departure, once and in its own state, and nothing else is sent or
/// changed; in particular no game start is sent while someone plays.
/// Otherwise the game starts: each client is told of the departure and then
/// that the game starts, and every lobby client plays.
pub proof fn lemma_departure_starts_only_when_all_ready(s: Seq<StateView>, user: Seq<char>)
    ensures
        (exists|j: int| 0 <= j < s.len() && #[trigger] holds_back(s[j])) ==> {
            &&& leave_outcome(s, user).0 == s
            &&& leave_outcome(s, user).1.len() == s.len()
            &&& forall|k: int|
                0 <= k < s.len() ==> #[trigger] leave_outcome(s, user).1[k] == notice_to(s, k, user)
        },
        (exists|j: int| 0 <= j < s.len() && #[trigger] s[j] is Play) ==> {
            &&& leave_outcome(s, user).0 == s
            &&& forall|k: int|
                0 <= k < leave_outcome(s, user).1.len() ==> (#[trigger] leave_outcome(
                    s,
                    user,
                ).1[k]).frame != FrameView::Lobby(LobbyView::GameStart)
        },
        (forall|j: int| 0 <= j < s.len() ==> !#[trigger] holds_back(s[j])) ==> {
            &&& leave_outcome(s, user).0 == start_game(s)
            &&& leave_outcome(s, user).1.len() == 2 * s.len()
            &&& forall|k: int|
                #![trigger notice_to(s, k, user)]
                0 <= k < s.len() ==> leave_outcome(s, user).1[2 * k] == notice_to(s, k, user)
                    && leave_outcome(s, user).1[2 * k + 1] == start_to(k)
        },
{
    let n = s.len() as int;
    let starts = crate::room::all_ready_or_logging_in(s);
    lemma_leave_deliveries_shape(s, n, user, starts);
    if exists|j: int| 0 <= j < s.len() && #[trigger] holds_back(s[j]) {
        let j = choose|j: int| 0 <= j < s.len() && #[trigger] holds_back(s[j]);
        assert(!(s[j] is Login || is_ready(s[j])));
        assert(!starts);
    }
    if exists|j: int| 0 <= j < s.len() && #[trigger] s[j] is Play {
        let j = choose|j: int| 0 <= j < s.len() && #[trigger] s[j] is Play;
        assert(holds_back(s[j]));
        let sent = leave_outcome(s, user).1;
        assert forall|k: int| 0 <= k < sent.len() implies (#[trigger] sent[k]).frame
            != FrameView::Lobby(LobbyView::GameStart) by {
            assert(sent[k] == notice_to(s, k, user));
        }
    }
    if forall|j: int| 0 <= j < s.len() ==> !#[trigger] holds_back(s[j]) {
        assert forall|j: int| 0 <= j < s.len() implies (#[trigger] s[j] is Login || is_ready(s[j])) by {
            assert(!holds_back(s[j]));
        }
        assert(starts);
    }
}

/// The event of the client at `i` leaving.
pub open spec fn departure(i: int) -> EventView {
    EventView::Disconnected { client: i }
}

/// When a client leaves the room, it leaves the list; when it had a name,
/// in the lobby or playing, the remaining room answers its departure under
/// that name, and every remaining client is told, in its own state, that it
/// left. A client that had no name leaves without a word.
pub proof fn lemma_named_departure_is_announced(s: Seq<StateView>, i: int)
    requires
        0 <= i < s.len(),
    ensures
        name_of(s[i]) is Some ==> session_outcome(s, departure(i)) == Some(
            leave_outcome(s.remove(i), name_of(s[i])->0),
        ),
        name_of(s[i]) is Some ==> (session_outcome(s, departure(i)) matches Some((_after, sent))
            && tells_everyone(sent, s.remove(i), name_of(s[i])->0)),
        name_of(s[i]) is None ==> session_outcome(s, departure(i)) == Some(
            (s.remove(i), Seq::<Delivery>::empty()),
        ),
{
    let rest = s.remove(i);
    if name_of(s[i]) is Some {
        let user = name_of(s[i])->0;
        let n = rest.len() as int;
        let starts = crate::room::all_ready_or_logging_in(rest);
        lemma_leave_deliveries_shape(rest, n, user, starts);
        let sent = leave_outcome(rest, user).1;
        assert forall|j: int| #![trigger notice_to(rest, j, user)] 0 <= j < n implies exists|k: int|
            0 <= k < sent.len() && #[trigger] sent[k] == notice_to(rest, j, user) by {
            if starts {
                assert(sent[2 * j] == notice_to(rest, j, user));
            } else {
                assert(sent[j] == notice_to(rest, j, user));
            }
        }
    }
}

/// Of the first `n` clients of `s`, no name belongs to `a` exactly when no
/// named client there belongs to `a`.
proof fn lemma_no_names_where(s: Seq<StateView>, n: int, a: Audience)
    requires
        0 <= n <= s.len(),
    ensures
        names_where(s, n, a).len() == 0 <==> forall|j: int|
            0 <= j < n ==> !(#[trigger] includes(a, j, s[j]) && name_of(s[j]) is Some),
    decreases n,
{
    if n > 0 {
        lemma_no_names_where(s, n - 1, a);
    }
}

/// The frame that tells the client at `j` that `name` joined the lobby.
pub open spec fn join_to(j: int, name: Seq<char>) -> Delivery {
    Delivery { client: j, frame: FrameView::Lobby(LobbyView::UserJoin { user: name }) }
}

/// The frame that tells the client at `i` which clients are ready.
pub open spec fn readied_to(i: int, users: Seq<Seq<char>>) -> Delivery {
    Delivery { client: i, frame: FrameView::Lobby(LobbyView::UsersReadied { users }) }
}

/// A newcomer that logs in under a name no client holds learns the lobby:
/// first the other lobby users; then, when some other lobby client is
/// ready, the names of the ready ones, and when none is, no readiness list
/// at all. Every other lobby client, and no one else, is told that the
/// newcomer joined.
#[verifier::rlimit(40)]
pub proof fn lemma_newcomer_learns_the_lobby(
    s: Seq<StateView>,
    d: DecodedView,
    i: int,
    name: Seq<char>,
)
    requires
        0 <= i < s.len() <= usize::MAX,
        s[i] is Login,
        d.room_login == Ok::<RoomLoginView, Seq<char>>(
            RoomLoginView::ClientInformation { username: name },
        ),
        forall|j: int| 0 <= j < s.len() ==> name_of(#[trigger] s[j]) != Some(name),
    ensures
        (exists|j: int| 0 <= j < s.len() && j != i && #[trigger] is_ready(s[j]))
            ==> opcode_outcome(s, d, i).1[1] == readied_to(
            i,
            names_where(s, s.len() as int, Audience::ReadyExcept(i as usize)),
        ),
        (forall|j: int| 0 <= j < s.len() && j != i ==> !#[trigger] is_ready(s[j])) ==> forall|k: int|
            0 <= k < opcode_outcome(s, d, i).1.len() ==> !((#[trigger] opcode_outcome(
                s,
                d,
                i,
            ).1[k]).frame is Lobby && opcode_outcome(s, d, i).1[k].frame->Lobby_0 is UsersReadied),
        forall|j: int|
            0 <= j < s.len() && j != i && #[trigger] s[j] is Lobby ==> exists|k: int|
                0 <= k < opcode_outcome(s, d, i).1.len() && #[trigger] opcode_outcome(s, d, i).1[k]
                    == join_to(j, name),
        forall|k: int|
            0 <= k < opcode_outcome(s, d, i).1.len() && (#[trigger] opcode_outcome(s, d, i).1[k]).client
                != i ==> {
                let c = opcode_outcome(s, d, i).1[k].client;
                &&& 0 <= c < s.len()
                &&& s[c] is Lobby
                &&& opcode_outcome(s, d, i).1[k] == join_to(c, name)
            },
{
    let iu = i as usize;
    let n = s.len() as int;
    assert(!name_taken(s, name));
    let join = FrameView::Lobby(LobbyView::UserJoin { user: name });
    lemma_deliveries_reach(s, n, Audience::LobbyExcept(iu), join);
    lemma_no_names_where(s, n, Audience::ReadyExcept(iu));
    let sent = opcode_outcome(s, d, i).1;
    let tail = deliveries(s, n, Audience::LobbyExcept(iu), join);
    let ready = names_where(s, n, Audience::ReadyExcept(iu));
    let head_len: int = if ready.len() == 0 { 1 } else { 2 };
    assert(sent.len() == head_len + tail.len());
    assert(forall|k: int| 0 <= k < tail.len() ==> sent[head_len + k] == #[trigger] tail[k]);
    if exists|j: int| 0 <= j < s.len() && j != i && #[trigger] is_ready(s[j]) {
        let j = choose|j: int| 0 <= j < s.len() && j != i && #[trigger] is_ready(s[j]);
        assert(includes(Audience::ReadyExcept(iu), j, s[j]) && name_of(s[j]) is Some);
    }
    if forall|j: int| 0 <= j < s.len() && j != i ==> !#[trigger] is_ready(s[j]) {
        assert forall|j: int| 0 <= j < n implies !(#[trigger] includes(
            Audience::ReadyExcept(iu),
            j,
            s[j],
        ) && name_of(s[j]) is Some) by {
            if j != i {
                assert(!is_ready(s[j]));
            }
        }
        assert forall|k: int| 0 <= k < sent.len() implies !((#[trigger] sent[k]).frame is Lobby
            && sent[k].frame->Lobby_0 is UsersReadied) by {
            if k >= 1 {
                assert(sent[k] == tail[k - 1]);
            }
        }
    }
    assert forall|j: int| 0 <= j < s.len() && j != i && #[trigger] s[j] is Lobby implies exists|k: int|
        0 <= k < sent.len() && #[trigger] sent[k] == join_to(j, name) by {
        assert(includes(Audience::LobbyExcept(iu), j, s[j]));
        let k = choose|k: int| 0 <= k < tail.len() && (#[trigger] tail[k]).client == j;
        assert(sent[head_len + k] == tail[k]);
    }
    assert forall|k: int| 0 <= k < sent.len() && (#[trigger] sent[k]).client != i implies {
        let c = sent[k].client;
        &&& 0 <= c < s.len()
        &&& s[c] is Lobby
        &&& sent[k] == join_to(c, name)
    } by {
        assert(k >= head_len);
        assert(sent[k] == tail[k - head_len]);
    }
}

/// A score a player reports reaches every playing client, the sender too,
/// and no one else, naming the sender; nothing changes.
pub proof fn lemma_score_reaches_every_player(
    s: Seq<StateView>,
    d: DecodedView,
    i: int,
    score: u64,
    health: u64,
)
    requires
        0 <= i < s.len(),
        s[i] is Play,
        d.play == Ok::<crate::protocol::PlayView, Seq<char>>(
            crate::protocol::PlayView::ClientScoreUpdate { score, health },
        ),
    ensures
        opcode_outcome(s, d, i).0 == s,
        forall|k: int|
            0 <= k < opcode_outcome(s, d, i).1.len() ==> {
                let c = (#[trigger] opcode_outcome(s, d, i).1[k]).client;
                &&& 0 <= c < s.len()
                &&& s[c] is Play
                &&& opcode_outcome(s, d, i).1[k].frame == FrameView::Play(
                    crate::protocol::PlayView::UserScoreUpdate {
                        user: s[i]->Play_username,
                        score,
                        health,
                    },
                )
            },
        forall|j: int|
            0 <= j < s.len() && #[trigger] s[j] is Play ==> exists|k: int|
                0 <= k < opcode_outcome(s, d, i).1.len() && (#[trigger] opcode_outcome(s, d, i).1[k]).client
                    == j,
{
    let n = s.len() as int;
    let f = FrameView::Play(
        crate::protocol::PlayView::UserScoreUpdate { user: s[i]->Play_username, score, health },
    );
    lemma_deliveries_reach(s, n, Audience::InPlay, f);
    let sent = opcode_outcome(s, d, i).1;
    assert(sent == deliveries(s, n, Audience::InPlay, f));
    assert forall|j: int| 0 <= j < s.len() && #[trigger] s[j] is Play implies exists|k: int|
        0 <= k < sent.len() && (#[trigger] sent[k]).client == j by {
        assert(includes(Audience::InPlay, j, s[j]));
    }
}

/// The frame that closes the client at `i` for breaking the protocol, with
/// `reason`.
pub open spec fn close_to(i: int, reason: Seq<char>) -> Delivery {
    Delivery { client: i, frame: FrameView::Close { code: 1007, reason } }
}

/// Only the decoding of the sender's own state counts. A text that is no
/// message of that state closes the sender with code 1007 and the decoder's
/// description; a message of that state that only the server sends closes
/// it with code 1007 and the reason "sent opcode reserved for server use".
/// Either way that frame is all that is sent, and nothing changes.
pub proof fn lemma_misplaced_message_closes_sender(s: Seq<StateView>, d: DecodedView, i: int)
    requires
        0 <= i < s.len(),
    ensures
        s[i] is Login && d.room_login is Err ==> opcode_outcome(s, d, i) == (
            s,
            seq![close_to(i, d.room_login->Err_0)],
        ),
        s[i] is Login && d.room_login is Ok && !(d.room_login->Ok_0 is ClientInformation)
            ==> opcode_outcome(s, d, i) == (
            s,
            seq![close_to(i, "sent opcode reserved for server use"@)],
        ),
        s[i] is Lobby && d.lobby is Err ==> opcode_outcome(s, d, i) == (
            s,
            seq![close_to(i, d.lobby->Err_0)],
        ),
        s[i] is Lobby && d.lobby is Ok && !(d.lobby->Ok_0 is ClientReady) ==> opcode_outcome(
            s,
            d,
            i,
        ) == (s, seq![close_to(i, "sent opcode reserved for server use"@)]),
        s[i] is Play && d.play is Err ==> opcode_outcome(s, d, i) == (
            s,
            seq![close_to(i, d.play->Err_0)],
        ),
        s[i] is Play && d.play is Ok && !(d.play->Ok_0 is ClientScoreUpdate) ==> opcode_outcome(
            s,
            d,
            i,
        ) == (s, seq![close_to(i, "sent opcode reserved for server use"@)]),
{
}

/// A new connection joins the room last, logging in, and nothing is sent;
/// a frame that is not text changes nothing and sends nothing; the end of
/// the stream of connections stops the session.
pub proof fn lemma_quiet_events(s: Seq<StateView>, j: int)
    ensures
        session_outcome(s, EventView::Connected) == Some(
            (s.push(StateView::Login), Seq::<Delivery>::empty()),
        ),
        session_outcome(s, other_frame(j)) == Some((s, Seq::<Delivery>::empty())),
        session_outcome(s, EventView::Closed) is None,
{
}

/// The event of the client at `j` sending a frame that is not text.
pub open spec fn other_frame(j: int) -> EventView {
    EventView::OtherFrame { client: j }
}

} // verus!

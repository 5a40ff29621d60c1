//! What each option of the command line means.

use vstd::prelude::*;
use crate::cli::{ArgumentsView, RoomTypeView, house_options, interpret, room_options};
use crate::util::ArgumentView;

verus! {

/// The options `ts` after the option `t`.
pub open spec fn led_by(t: ArgumentView, ts: Seq<ArgumentView>) -> Seq<ArgumentView> {
    seq![t] + ts
}

/// A room locked with `password`.
pub open spec fn locked(password: Seq<char>) -> RoomTypeView {
    RoomTypeView::PasswordProtected { password }
}

/// Each option of a room means what the usage text says, in its short and
/// its long form alike, and the options after it are read the same way:
/// `-t`/`--trust` trusts clients to provide assets, `-T`/`--no-trust` does
/// not, `-p`/`--public` makes the room public, `-r`/`--private` private,
/// and `-s`/`--password` followed by a password makes it private and locked
/// with that password. Without options the room keeps what it had; a
/// password option with no password after it is refused.
pub proof fn lemma_room_options_mean_what_they_say(
    ts: Seq<ArgumentView>,
    trust: bool,
    kind: RoomTypeView,
    password: Seq<char>,
)
    ensures
        room_options(Seq::empty(), trust, kind) == Some((trust, kind)),
        room_options(led_by(ArgumentView::Short('t'), ts), trust, kind) == room_options(ts, true, kind),
        room_options(led_by(ArgumentView::Long("trust"@), ts), trust, kind) == room_options(
            ts,
            true,
            kind,
        ),
        room_options(led_by(ArgumentView::Short('T'), ts), trust, kind) == room_options(ts, false, kind),
        room_options(led_by(ArgumentView::Long("no-trust"@), ts), trust, kind) == room_options(
            ts,
            false,
            kind,
        ),
        room_options(led_by(ArgumentView::Short('p'), ts), trust, kind) == room_options(
            ts,
            trust,
            RoomTypeView::Public,
        ),
        room_options(led_by(ArgumentView::Long("public"@), ts), trust, kind) == room_options(
            ts,
            trust,
            RoomTypeView::Public,
        ),
        room_options(led_by(ArgumentView::Short('r'), ts), trust, kind) == room_options(
            ts,
            trust,
            RoomTypeView::Private,
        ),
        room_options(led_by(ArgumentView::Long("private"@), ts), trust, kind) == room_options(
            ts,
            trust,
            RoomTypeView::Private,
        ),
        room_options(
            led_by(ArgumentView::Short('s'), led_by(ArgumentView::Normal(password), ts)),
            trust,
            kind,
        ) == room_options(ts, trust, locked(password)),
        room_options(
            led_by(ArgumentView::Long("password"@), led_by(ArgumentView::Normal(password), ts)),
            trust,
            kind,
        ) == room_options(ts, trust, locked(password)),
        room_options(seq![ArgumentView::Short('s')], trust, kind) is None,
        room_options(seq![ArgumentView::Long("password"@)], trust, kind) is None,
{
    reveal_strlit("trust");
    reveal_strlit("no-trust");
    reveal_strlit("public");
    reveal_strlit("private");
    reveal_strlit("password");
    assert("no-trust"@ != "trust"@) by {
        assert("no-trust"@.len() != "trust"@.len());
    }
    assert("public"@ != "trust"@ && "public"@ != "no-trust"@) by {
        assert("public"@.len() == 6);
    }
    assert("private"@ != "trust"@ && "private"@ != "no-trust"@ && "private"@ != "public"@) by {
        assert("private"@.len() == 7);
    }
    assert("password"@ != "trust"@ && "password"@ != "public"@ && "password"@ != "private"@) by {
        assert("password"@.len() == 8);
    }
    assert("password"@ != "no-trust"@) by {
        assert("password"@[0] != "no-trust"@[0]);
    }
    assert(forall|t: ArgumentView| #[trigger] led_by(t, ts)[0] == t && led_by(t, ts).drop_first() == ts);
    let pw = led_by(ArgumentView::Normal(password), ts);
    assert(led_by(ArgumentView::Short('s'), pw).skip(2) == ts);
    assert(led_by(ArgumentView::Long("password"@), pw).skip(2) == ts);
    assert(led_by(ArgumentView::Short('s'), pw)[1] == ArgumentView::Normal(password));
    assert(led_by(ArgumentView::Long("password"@), pw)[1] == ArgumentView::Normal(password));
}

/// Each option of a house means what the usage text says, in its short and
/// its long form alike, and the options after it are read the same way:
/// `-u`/`--public-rooms` allows public rooms and `-U`/`--no-public-rooms`
/// forbids them, `-r`/`--private-rooms` and `-R`/`--no-private-rooms` do
/// the same for private rooms, and `-s`/`--password-rooms` (also spelled
/// `--pasword-rooms`) and `-S`/`--no-password-rooms` for password protected
/// rooms. Without options the house keeps what it had.
pub proof fn lemma_house_options_mean_what_they_say(ts: Seq<ArgumentView>, a: (bool, bool, bool))
    ensures
        house_options(Seq::empty(), a) == Some(a),
        house_options(led_by(ArgumentView::Short('u'), ts), a) == house_options(ts, (true, a.1, a.2)),
        house_options(led_by(ArgumentView::Long("public-rooms"@), ts), a) == house_options(
            ts,
            (true, a.1, a.2),
        ),
        house_options(led_by(ArgumentView::Short('U'), ts), a) == house_options(ts, (false, a.1, a.2)),
        house_options(led_by(ArgumentView::Long("no-public-rooms"@), ts), a) == house_options(
            ts,
            (false, a.1, a.2),
        ),
        house_options(led_by(ArgumentView::Short('r'), ts), a) == house_options(ts, (a.0, true, a.2)),
        house_options(led_by(ArgumentView::Long("private-rooms"@), ts), a) == house_options(
            ts,
            (a.0, true, a.2),
        ),
        house_options(led_by(ArgumentView::Short('R'), ts), a) == house_options(ts, (a.0, false, a.2)),
        house_options(led_by(ArgumentView::Long("no-private-rooms"@), ts), a) == house_options(
            ts,
            (a.0, false, a.2),
        ),
        house_options(led_by(ArgumentView::Short('s'), ts), a) == house_options(ts, (a.0, a.1, true)),
        house_options(led_by(ArgumentView::Long("password-rooms"@), ts), a) == house_options(
            ts,
            (a.0, a.1, true),
        ),
        house_options(led_by(ArgumentView::Long("pasword-rooms"@), ts), a) == house_options(
            ts,
            (a.0, a.1, true),
        ),
        house_options(led_by(ArgumentView::Short('S'), ts), a) == house_options(ts, (a.0, a.1, false)),
        house_options(led_by(ArgumentView::Long("no-password-rooms"@), ts), a) == house_options(
            ts,
            (a.0, a.1, false),
        ),
{
    reveal_strlit("public-rooms");
    reveal_strlit("no-public-rooms");
    reveal_strlit("private-rooms");
    reveal_strlit("no-private-rooms");
    reveal_strlit("password-rooms");
    reveal_strlit("pasword-rooms");
    reveal_strlit("no-password-rooms");
    assert(forall|t: ArgumentView| #[trigger] led_by(t, ts)[0] == t && led_by(t, ts).drop_first() == ts);
    assert("public-rooms"@.len() == 12 && "no-public-rooms"@.len() == 15);
    assert("private-rooms"@.len() == 13 && "no-private-rooms"@.len() == 16);
    assert("password-rooms"@.len() == 14 && "pasword-rooms"@.len() == 13);
    assert("no-password-rooms"@.len() == 17);
    assert("private-rooms"@ != "pasword-rooms"@) by {
        assert("private-rooms"@[2] != "pasword-rooms"@[2]);
    }
}

/// The first argument decides what is asked: nothing asks for help;
/// `version`, `-v` or `--version` ask for the version, whatever follows;
/// `room` asks for a room read from the options after it, trusted and
/// public unless they say otherwise, and for help when they are not a
/// room's; `house` likewise asks for a house that allows public and private
/// rooms but not password protected ones unless its options say otherwise.
pub proof fn lemma_first_argument_decides(ts: Seq<ArgumentView>)
    ensures
        interpret(Seq::empty()) == ArgumentsView::Help,
        interpret(led_by(ArgumentView::Short('v'), ts)) == ArgumentsView::Version,
        interpret(led_by(ArgumentView::Long("version"@), ts)) == ArgumentsView::Version,
        interpret(led_by(ArgumentView::Normal("version"@), ts)) == ArgumentsView::Version,
        interpret(seq![ArgumentView::Normal("room"@)]) == (ArgumentsView::Room {
            trust: true,
            room_type: RoomTypeView::Public,
        }),
        room_options(ts, true, RoomTypeView::Public) matches Some((trust, room_type)) ==> interpret(
            led_by(ArgumentView::Normal("room"@), ts),
        ) == (ArgumentsView::Room { trust, room_type }),
        room_options(ts, true, RoomTypeView::Public) is None ==> interpret(
            led_by(ArgumentView::Normal("room"@), ts),
        ) == ArgumentsView::Help,
        interpret(seq![ArgumentView::Normal("house"@)]) == (ArgumentsView::House {
            public_rooms: true,
            private_rooms: true,
            password_rooms: false,
        }),
        house_options(ts, (true, true, false)) matches Some(a) ==> interpret(
            led_by(ArgumentView::Normal("house"@), ts),
        ) == (ArgumentsView::House { public_rooms: a.0, private_rooms: a.1, password_rooms: a.2 }),
        house_options(ts, (true, true, false)) is None ==> interpret(
            led_by(ArgumentView::Normal("house"@), ts),
        ) == ArgumentsView::Help,
{
    reveal_strlit("version");
    reveal_strlit("room");
    reveal_strlit("house");
    assert(forall|t: ArgumentView| #[trigger] led_by(t, ts)[0] == t && led_by(t, ts).drop_first() == ts);
    assert(seq![ArgumentView::Normal("room"@)].drop_first() == Seq::<ArgumentView>::empty());
    assert(seq![ArgumentView::Normal("house"@)].drop_first() == Seq::<ArgumentView>::empty());
    assert("room"@ != "version"@ && "house"@ != "version"@ && "room"@ != "house"@) by {
        assert("room"@.len() == 4 && "house"@.len() == 5 && "version"@.len() == 7);
    }
}

} // verus!

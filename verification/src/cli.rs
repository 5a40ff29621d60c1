//! The server's command line.
//!
//! `server version` (or `-v`, `--version`) asks for the version, `server
//! room` hosts a room, `server house` hosts a house of rooms, anything else
//! asks for help.
//!
//! A room takes the options `-t`/`--trust` (trust clients to provide assets,
//! the default), `-T`/`--no-trust`, `-p`/`--public` (public and vote based,
//! the default), `-r`/`--private` (private and ownership based) and
//! `-s <password>`/`--password <password>` (private, password locked and
//! ownership based).
//!
//! A house takes `-u`/`--public-rooms` (allow public rooms, the default),
//! `-U`/`--no-public-rooms`, `-r`/`--private-rooms` (allow private rooms, the
//! default), `-R`/`--no-private-rooms`, `-s`/`--password-rooms` (allow
//! password protected rooms; `--pasword-rooms` is taken too) and
//! `-S`/`--no-password-rooms` (the default).
//!
//! Of conflicting options the last one wins; any other option is refused.

use vstd::prelude::*;
use crate::util::{
    Argument, ArgumentParser, ArgumentView, PendingView, advance, pending_len, pending_valid,
    split_ok, str_equals, tokens, tokens_ok, view_result, lemma_step_shrinks,
};

verus! {

/// The kind of a room.
#[derive(Debug, Clone, PartialEq, Eq)]
pub enum RoomType {
    /// Public and vote based.
    Public,
    /// Private and ownership based.
    Private,
    /// Private, locked with `password`, and ownership based.
    PasswordProtected { password: String },
}

/// The abstract value of a [`RoomType`].
pub enum RoomTypeView {
    Public,
    Private,
    PasswordProtected { password: Seq<char> },
}

impl View for RoomType {
    type V = RoomTypeView;

    open spec fn view(&self) -> RoomTypeView {
        match self {
            RoomType::Public => RoomTypeView::Public,
            RoomType::Private => RoomTypeView::Private,
            RoomType::PasswordProtected { password } => RoomTypeView::PasswordProtected {
                password: password@,
            },
        }
    }
}

/// What the command line asks for.
#[derive(Debug, Clone, PartialEq, Eq)]
pub enum Arguments {
    /// Host a room; `trust` tells whether clients are trusted to provide assets.
    Room { trust: bool, room_type: RoomType },
    /// Host a house, with the kinds of rooms it allows.
    House { public_rooms: bool, private_rooms: bool, password_rooms: bool },
    Help,
    Version,
}

/// The abstract value of [`Arguments`].
pub enum ArgumentsView {
    Room { trust: bool, room_type: RoomTypeView },
    House { public_rooms: bool, private_rooms: bool, password_rooms: bool },
    Help,
    Version,
}

impl View for Arguments {
    type V = ArgumentsView;

    open spec fn view(&self) -> ArgumentsView {
        match self {
            Arguments::Room { trust, room_type } => ArgumentsView::Room {
                trust: *trust,
                room_type: room_type@,
            },
            Arguments::House { public_rooms, private_rooms, password_rooms } => ArgumentsView::House {
                public_rooms: *public_rooms,
                private_rooms: *private_rooms,
                password_rooms: *password_rooms,
            },
            Arguments::Help => ArgumentsView::Help,
            Arguments::Version => ArgumentsView::Version,
        }
    }
}

/// Whether `t` is the switch `-short` or `--long`.
pub open spec fn is_switch(t: ArgumentView, short: char, long: Seq<char>) -> bool {
    t == ArgumentView::Short(short) || t == ArgumentView::Long(long)
}

/// Whether `t` asks for the version.
pub open spec fn asks_version(t: ArgumentView) -> bool {
    is_switch(t, 'v', "version"@) || t == ArgumentView::Normal("version"@)
}

/// Whether `t` asks to host a room.
pub open spec fn asks_room(t: ArgumentView) -> bool {
    t == ArgumentView::Normal("room"@)
}

/// Whether `t` asks to host a house.
pub open spec fn asks_house(t: ArgumentView) -> bool {
    t == ArgumentView::Normal("house"@)
}

/// The trust and kind of a room given its options `ts`, starting from
/// `trust` and `kind`; `None` when an option is not one of a room, or a
/// password option is not followed by a normal argument, the password.
pub open spec fn room_options(ts: Seq<ArgumentView>, trust: bool, kind: RoomTypeView) -> Option<
    (bool, RoomTypeView),
>
    decreases ts.len(),
{
    if ts.len() == 0 {
        Some((trust, kind))
    } else {
        let t = ts[0];
        if is_switch(t, 't', "trust"@) {
            room_options(ts.drop_first(), true, kind)
        } else if is_switch(t, 'T', "no-trust"@) {
            room_options(ts.drop_first(), false, kind)
        } else if is_switch(t, 'p', "public"@) {
            room_options(ts.drop_first(), trust, RoomTypeView::Public)
        } else if is_switch(t, 'r', "private"@) {
            room_options(ts.drop_first(), trust, RoomTypeView::Private)
        } else if is_switch(t, 's', "password"@) {
            if ts.len() < 2 {
                None
            } else {
                match ts[1] {
                    ArgumentView::Normal(password) => room_options(
                        ts.skip(2),
                        trust,
                        RoomTypeView::PasswordProtected { password },
                    ),
                    _ => None,
                }
            }
        } else {
            None
        }
    }
}

/// Whether `t` is the option that allows password protected rooms in a house.
pub open spec fn is_password_rooms(t: ArgumentView) -> bool {
    is_switch(t, 's', "password-rooms"@) || t == ArgumentView::Long("pasword-rooms"@)
}

/// Which kinds of rooms a house allows given its options `ts` (public,
/// private, password protected), starting from `allowed`; `None` when an
/// option is not one of a house.
pub open spec fn house_options(ts: Seq<ArgumentView>, allowed: (bool, bool, bool)) -> Option<
    (bool, bool, bool),
>
    decreases ts.len(),
{
    if ts.len() == 0 {
        Some(allowed)
    } else {
        let t = ts[0];
        let rest = ts.drop_first();
        if is_switch(t, 'u', "public-rooms"@) {
            house_options(rest, (true, allowed.1, allowed.2))
        } else if is_switch(t, 'U', "no-public-rooms"@) {
            house_options(rest, (false, allowed.1, allowed.2))
        } else if is_switch(t, 'r', "private-rooms"@) {
            house_options(rest, (allowed.0, true, allowed.2))
        } else if is_switch(t, 'R', "no-private-rooms"@) {
            house_options(rest, (allowed.0, false, allowed.2))
        } else if is_password_rooms(t) {
            house_options(rest, (allowed.0, allowed.1, true))
        } else if is_switch(t, 'S', "no-password-rooms"@) {
            house_options(rest, (allowed.0, allowed.1, false))
        } else {
            None
        }
    }
}

/// What the parsed arguments `ts` ask for.
pub open spec fn interpret(ts: Seq<ArgumentView>) -> ArgumentsView {
    if ts.len() == 0 {
        ArgumentsView::Help
    } else if asks_version(ts[0]) {
        ArgumentsView::Version
    } else if asks_room(ts[0]) {
        match room_options(ts.drop_first(), true, RoomTypeView::Public) {
            Some((trust, room_type)) => ArgumentsView::Room { trust, room_type },
            None => ArgumentsView::Help,
        }
    } else if asks_house(ts[0]) {
        match house_options(ts.drop_first(), (true, true, false)) {
            Some(allowed) => ArgumentsView::House {
                public_rooms: allowed.0,
                private_rooms: allowed.1,
                password_rooms: allowed.2,
            },
            None => ArgumentsView::Help,
        }
    } else {
        ArgumentsView::Help
    }
}

/// The arguments after the program's name.
pub open spec fn program_arguments(args: Seq<Seq<char>>) -> Seq<Seq<char>> {
    if args.len() == 0 {
        args
    } else {
        args.drop_first()
    }
}

/// What the command line `args` (the program's name first) asks for.
pub open spec fn parse_result(args: Seq<Seq<char>>) -> ArgumentsView {
    interpret(tokens(PendingView::Plain, program_arguments(args)))
}

/// Whether [`parse`] handles `args`: the first argument can be cut, and
/// when it asks for a room or a house, every further argument can be cut
/// and the options are ones of a room or of a house.
pub open spec fn accepts(args: Seq<Seq<char>>) -> bool {
    let rest = program_arguments(args);
    let first = advance(PendingView::Plain, rest, None);
    &&& split_ok(PendingView::Plain, rest)
    &&& first.0 == Some(ArgumentView::Normal("room"@)) ==> {
        &&& tokens_ok(first.1, first.2)
        &&& room_options(tokens(first.1, first.2), true, RoomTypeView::Public) is Some
    }
    &&& first.0 == Some(ArgumentView::Normal("house"@)) ==> {
        &&& tokens_ok(first.1, first.2)
        &&& house_options(tokens(first.1, first.2), (true, true, false)) is Some
    }
}

/// The value extractor of the command line: no switch carries a value.
fn no_value<'b>(_long: bool, _content: &'b str) -> (r: Option<(&'b str, &'b str)>)
    ensures
        r is None,
{
    None
}

/// The next argument of a parser whose value extractor never splits a switch.
fn next_plain<'a, F>(parser: &mut ArgumentParser<'a, F>) -> (r: Option<Argument<'a>>) where
    F: FnMut(bool, &str) -> Option<(&str, &str)>,

    requires
        old(parser).well_formed(),
        split_ok(old(parser).pending(), old(parser).remaining()),
        forall|long: bool, t: &'a str| #[trigger] call_requires(old(parser).extractor(), (long, t)),
        forall|long: bool, t: &'a str, a: Option<(&'a str, &'a str)>|
            #[trigger] call_ensures(old(parser).extractor(), (long, t), a) ==> a is None,
    ensures
        final(parser).well_formed(),
        pending_valid(final(parser).pending()),
        final(parser).extractor() == old(parser).extractor(),
        (view_result(r), final(parser).pending(), final(parser).remaining()) == advance(
            old(parser).pending(),
            old(parser).remaining(),
            None,
        ),
{
    parser.next()
}

/// The arguments of `args` after the program's name.
fn program_argument_list<'a>(args: &'a Vec<String>) -> (list: Vec<&'a str>)
    ensures
        list@.map_values(|a: &str| a@) == program_arguments(args.deep_view()),
{
    let mut list: Vec<&'a str> = Vec::new();
    let mut k: usize = 1;
    while k < args.len()
        invariant
            1 <= k,
            k <= args.len() || args.len() == 0,
            list@.len() == if args.len() == 0 { 0 } else { k - 1 },
            forall|i: int| 0 <= i < list@.len() ==> (#[trigger] list@[i])@ == args@[i + 1]@,
        decreases args.len() - k,
    {
        list.push(args[k].as_str());
        k = k + 1;
    }
    assert(list@.map_values(|a: &str| a@) =~= program_arguments(args.deep_view()));
    list
}

/// Whether `a` asks for the version.
fn is_version_request(a: &Argument) -> (b: bool)
    ensures
        b == asks_version(a@),
{
    match *a {
        Argument::Short(c) => c == 'v',
        Argument::Long(n) => str_equals(n, "version"),
        Argument::Normal(n) => str_equals(n, "version"),
        _ => false,
    }
}

/// A step that produces an argument starts the rest of the arguments.
proof fn lemma_tokens_unfold(p: PendingView, rest: Seq<Seq<char>>)
    requires
        pending_valid(p),
    ensures
        advance(p, rest, None).0 matches Some(a) ==> tokens(p, rest) == seq![a] + tokens(
            advance(p, rest, None).1,
            advance(p, rest, None).2,
        ) && (tokens_ok(p, rest) == (split_ok(p, rest) && tokens_ok(
            advance(p, rest, None).1,
            advance(p, rest, None).2,
        ))),
        advance(p, rest, None).0 is None ==> tokens(p, rest) == Seq::<ArgumentView>::empty() && (
        tokens_ok(p, rest) == split_ok(p, rest)),
{
}


/// Whether `a` is the switch `-short` or `--long`.
fn is_switch_exec(a: &Argument, short: char, long: &str) -> (b: bool)
    ensures
        b == is_switch(a@, short, long@),
{
    match *a {
        Argument::Short(c) => c == short,
        Argument::Long(n) => str_equals(n, long),
        _ => false,
    }
}

/// Whether `a` is the normal argument `word`.
fn is_word(a: &Argument, word: &str) -> (b: bool)
    ensures
        b == (a@ == ArgumentView::Normal(word@)),
{
    match *a {
        Argument::Normal(n) => str_equals(n, word),
        _ => false,
    }
}

/// The trust and kind of a room given the options that the parser has left;
/// `None` when an option is refused or an argument cannot be cut.
fn read_room<'a, F>(parser: &mut ArgumentParser<'a, F>) -> (r: Option<(bool, RoomType)>) where
    F: FnMut(bool, &str) -> Option<(&str, &str)>,

    requires
        old(parser).well_formed(),
        pending_valid(old(parser).pending()),
        forall|long: bool, t: &'a str| #[trigger] call_requires(old(parser).extractor(), (long, t)),
        forall|long: bool, t: &'a str, a: Option<(&'a str, &'a str)>|
            #[trigger] call_ensures(old(parser).extractor(), (long, t), a) ==> a is None,
    ensures
        r is Some <==> (tokens_ok(old(parser).pending(), old(parser).remaining()) && room_options(
            tokens(old(parser).pending(), old(parser).remaining()),
            true,
            RoomTypeView::Public,
        ) is Some),
        r matches Some((trust, kind)) ==> room_options(
            tokens(old(parser).pending(), old(parser).remaining()),
            true,
            RoomTypeView::Public,
        ) == Some((trust, kind@)),
{
    let ghost all = tokens(parser.pending(), parser.remaining());
    let ghost ok = tokens_ok(parser.pending(), parser.remaining());
    let mut trust = true;
    let mut kind = RoomType::Public;
    loop
        invariant
            parser.well_formed(),
            pending_valid(parser.pending()),
            forall|long: bool, t: &'a str| #[trigger] call_requires(parser.extractor(), (long, t)),
            forall|long: bool, t: &'a str, x: Option<(&'a str, &'a str)>|
                #[trigger] call_ensures(parser.extractor(), (long, t), x) ==> x is None,
            all == tokens(old(parser).pending(), old(parser).remaining()),
            ok == tokens_ok(old(parser).pending(), old(parser).remaining()),
            tokens_ok(parser.pending(), parser.remaining()) == ok,
            room_options(tokens(parser.pending(), parser.remaining()), trust, kind@) == room_options(
                all,
                true,
                RoomTypeView::Public,
            ),
        decreases parser.remaining().len(), pending_len(parser.pending()),
    {
        let ghost p = parser.pending();
        let ghost left = parser.remaining();
        proof {
            lemma_tokens_unfold(p, left);
        }
        if !parser.can_advance() {
            return None;
        }
        match next_plain(parser) {
            None => {
                return Some((trust, kind));
            },
            Some(option) => {
                proof {
                    lemma_step_shrinks(p, left);
                }
                let ghost p1 = parser.pending();
                let ghost left1 = parser.remaining();
                let ghost ts = tokens(p, left);
                assert(ts.drop_first() =~= tokens(p1, left1));
                if is_switch_exec(&option, 't', "trust") {
                    trust = true;
                } else if is_switch_exec(&option, 'T', "no-trust") {
                    trust = false;
                } else if is_switch_exec(&option, 'p', "public") {
                    kind = RoomType::Public;
                } else if is_switch_exec(&option, 'r', "private") {
                    kind = RoomType::Private;
                } else if is_switch_exec(&option, 's', "password") {
                    proof {
                        lemma_tokens_unfold(p1, left1);
                    }
                    if !parser.can_advance() {
                        return None;
                    }
                    match next_plain(parser) {
                        Some(Argument::Normal(word)) => {
                            proof {
                                lemma_step_shrinks(p1, left1);
                                assert(ts.skip(2) =~= tokens(parser.pending(), parser.remaining()));
                            }
                            kind = RoomType::PasswordProtected { password: String::from_str(word) };
                        },
                        _ => {
                            return None;
                        },
                    }
                } else {
                    return None;
                }
            },
        }
    }
}

/// Which kinds of rooms a house allows given the options that the parser
/// has left; `None` when an option is refused or an argument cannot be cut.
fn read_house<'a, F>(parser: &mut ArgumentParser<'a, F>) -> (r: Option<(bool, bool, bool)>) where
    F: FnMut(bool, &str) -> Option<(&str, &str)>,

    requires
        old(parser).well_formed(),
        pending_valid(old(parser).pending()),
        forall|long: bool, t: &'a str| #[trigger] call_requires(old(parser).extractor(), (long, t)),
        forall|long: bool, t: &'a str, a: Option<(&'a str, &'a str)>|
            #[trigger] call_ensures(old(parser).extractor(), (long, t), a) ==> a is None,
    ensures
        r is Some <==> (tokens_ok(old(parser).pending(), old(parser).remaining()) && house_options(
            tokens(old(parser).pending(), old(parser).remaining()),
            (true, true, false),
        ) is Some),
        r matches Some(allowed) ==> house_options(
            tokens(old(parser).pending(), old(parser).remaining()),
            (true, true, false),
        ) == Some(allowed),
{
    let ghost all = tokens(parser.pending(), parser.remaining());
    let ghost ok = tokens_ok(parser.pending(), parser.remaining());
    let mut allowed = (true, true, false);
    loop
        invariant
            parser.well_formed(),
            pending_valid(parser.pending()),
            forall|long: bool, t: &'a str| #[trigger] call_requires(parser.extractor(), (long, t)),
            forall|long: bool, t: &'a str, x: Option<(&'a str, &'a str)>|
                #[trigger] call_ensures(parser.extractor(), (long, t), x) ==> x is None,
            all == tokens(old(parser).pending(), old(parser).remaining()),
            ok == tokens_ok(old(parser).pending(), old(parser).remaining()),
            tokens_ok(parser.pending(), parser.remaining()) == ok,
            house_options(tokens(parser.pending(), parser.remaining()), allowed) == house_options(
                all,
                (true, true, false),
            ),
        decreases parser.remaining().len(), pending_len(parser.pending()),
    {
        let ghost p = parser.pending();
        let ghost left = parser.remaining();
        proof {
            lemma_tokens_unfold(p, left);
        }
        if !parser.can_advance() {
            return None;
        }
        match next_plain(parser) {
            None => {
                return Some(allowed);
            },
            Some(option) => {
                proof {
                    lemma_step_shrinks(p, left);
                }
                let ghost ts = tokens(p, left);
                assert(ts.drop_first() =~= tokens(parser.pending(), parser.remaining()));
                if is_switch_exec(&option, 'u', "public-rooms") {
                    allowed = (true, allowed.1, allowed.2);
                } else if is_switch_exec(&option, 'U', "no-public-rooms") {
                    allowed = (false, allowed.1, allowed.2);
                } else if is_switch_exec(&option, 'r', "private-rooms") {
                    allowed = (allowed.0, true, allowed.2);
                } else if is_switch_exec(&option, 'R', "no-private-rooms") {
                    allowed = (allowed.0, false, allowed.2);
                } else if is_switch_exec(&option, 's', "password-rooms") || is_word_long(
                    &option,
                    "pasword-rooms",
                ) {
                    allowed = (allowed.0, allowed.1, true);
                } else if is_switch_exec(&option, 'S', "no-password-rooms") {
                    allowed = (allowed.0, allowed.1, false);
                } else {
                    return None;
                }
            },
        }
    }
}

/// Whether `a` is the long switch `--name`.
fn is_word_long(a: &Argument, name: &str) -> (b: bool)
    ensures
        b == (a@ == ArgumentView::Long(name@)),
{
    match *a {
        Argument::Long(n) => str_equals(n, name),
        _ => false,
    }
}

/// What the command line `args` asks for; `args` starts with the program's
/// name.
pub fn parse(args: &Vec<String>) -> (r: Arguments)
    requires
        accepts(args.deep_view()),
    ensures
        r@ == parse_result(args.deep_view()),
{
    let ghost rest = program_arguments(args.deep_view());
    let list = program_argument_list(args);
    let mut parser = ArgumentParser::new_extractor(list, no_value);
    assert(parser.remaining() == rest);
    proof {
        lemma_tokens_unfold(PendingView::Plain, rest);
    }
    let first = next_plain(&mut parser);
    match first {
        None => Arguments::Help,
        Some(a) => {
            assert(tokens(PendingView::Plain, rest)[0] == a@);
            assert(tokens(PendingView::Plain, rest).drop_first() =~= tokens(
                parser.pending(),
                parser.remaining(),
            ));
            if is_version_request(&a) {
                Arguments::Version
            } else if is_word(&a, "room") {
                match read_room(&mut parser) {
                    Some((trust, room_type)) => Arguments::Room { trust, room_type },
                    None => Arguments::Help,
                }
            } else if is_word(&a, "house") {
                match read_house(&mut parser) {
                    Some(allowed) => Arguments::House {
                        public_rooms: allowed.0,
                        private_rooms: allowed.1,
                        password_rooms: allowed.2,
                    },
                    None => Arguments::Help,
                }
            } else {
                Arguments::Help
            }
        },
    }
}

/// Whether [`parse`] handles the command line `args`: see [`accepts`].
pub fn accepted(args: &Vec<String>) -> (b: bool)
    ensures
        b == accepts(args.deep_view()),
{
    let ghost rest = program_arguments(args.deep_view());
    let list = program_argument_list(args);
    let mut parser = ArgumentParser::new_extractor(list, no_value);
    assert(parser.remaining() == rest);
    if !parser.can_advance() {
        return false;
    }
    proof {
        reveal_strlit("room");
        reveal_strlit("house");
        assert("room"@.len() != "house"@.len());
    }
    let first = next_plain(&mut parser);
    match first {
        None => true,
        Some(a) => {
            if is_word(&a, "room") {
                read_room(&mut parser).is_some()
            } else if is_word(&a, "house") {
                read_house(&mut parser).is_some()
            } else {
                true
            }
        },
    }
}

} // verus!

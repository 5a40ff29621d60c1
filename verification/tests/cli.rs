use funkin_server::cli::{accepted, parse, Arguments, RoomType};

fn line(args: &[&str]) -> Vec<String> {
    let mut all = vec!["server".to_string()];
    all.extend(args.iter().map(|s| s.to_string()));
    all
}

fn run(args: &[&str]) -> Arguments {
    let args = line(args);
    assert!(accepted(&args));
    parse(&args)
}

#[test]
fn nothing_asks_for_help() {
    assert_eq!(run(&[]), Arguments::Help);
    assert_eq!(parse(&Vec::new()), Arguments::Help);
    assert_eq!(run(&["help"]), Arguments::Help);
    assert_eq!(run(&["--help"]), Arguments::Help);
}

#[test]
fn version_is_asked_three_ways() {
    assert_eq!(run(&["version"]), Arguments::Version);
    assert_eq!(run(&["-v"]), Arguments::Version);
    assert_eq!(run(&["--version"]), Arguments::Version);
    assert_eq!(run(&["-vx"]), Arguments::Version);
}

#[test]
fn room_defaults_to_trusted_and_public() {
    assert_eq!(run(&["room"]), Arguments::Room { trust: true, room_type: RoomType::Public });
}

#[test]
fn room_options_last_one_wins() {
    assert_eq!(run(&["room", "-T", "-r"]), Arguments::Room { trust: false, room_type: RoomType::Private });
    assert_eq!(run(&["room", "-Tr"]), Arguments::Room { trust: false, room_type: RoomType::Private });
    assert_eq!(
        run(&["room", "--private", "--no-trust", "--public", "-t"]),
        Arguments::Room { trust: true, room_type: RoomType::Public }
    );
}

#[test]
fn room_after_double_dash() {
    assert_eq!(run(&["--", "room"]), Arguments::Room { trust: true, room_type: RoomType::Public });
}

#[test]
fn unknown_room_option_is_refused() {
    assert!(!accepted(&line(&["room", "-x"])));
    assert!(!accepted(&line(&["room", "--", "-t"])));
    assert!(!accepted(&line(&["room", ""])));
}

#[test]
fn arguments_that_cannot_be_cut_are_refused_only_when_read() {
    assert!(!accepted(&line(&[""])));
    assert!(!accepted(&line(&["-"])));
    assert!(!accepted(&line(&["\u{e9}t\u{e9}"])));
    assert!(accepted(&line(&["help", ""])));
    assert_eq!(run(&["help", ""]), Arguments::Help);
}

#[test]
fn password_makes_a_locked_private_room() {
    let locked = |pw: &str| Arguments::Room {
        trust: true,
        room_type: RoomType::PasswordProtected { password: pw.to_string() },
    };
    assert_eq!(run(&["room", "--password", "pw"]), locked("pw"));
    assert_eq!(run(&["room", "-s", "pw"]), locked("pw"));
    assert_eq!(run(&["room", "-s", "pw", "-p"]), Arguments::Room { trust: true, room_type: RoomType::Public });
    assert_eq!(
        run(&["room", "-T", "-s", "--", "-odd"]),
        Arguments::Room { trust: false, room_type: RoomType::PasswordProtected { password: "-odd".to_string() } }
    );
}

#[test]
fn password_option_needs_a_password() {
    assert!(!accepted(&line(&["room", "-s"])));
    assert!(!accepted(&line(&["room", "--password", "-t"])));
    assert!(!accepted(&line(&["room", "-st"])));
}

#[test]
fn house_defaults_and_options() {
    let house = |a: bool, b: bool, c: bool| Arguments::House { public_rooms: a, private_rooms: b, password_rooms: c };
    assert_eq!(run(&["house"]), house(true, true, false));
    assert_eq!(run(&["house", "-U", "-R", "-s"]), house(false, false, true));
    assert_eq!(run(&["house", "-URs"]), house(false, false, true));
    assert_eq!(
        run(&["house", "--no-public-rooms", "--public-rooms", "--no-private-rooms", "--password-rooms", "--no-password-rooms"]),
        house(true, false, false)
    );
    assert_eq!(run(&["house", "--pasword-rooms"]), house(true, true, true));
    assert!(!accepted(&line(&["house", "-t"])));
    assert!(!accepted(&line(&["house", "extra"])));
}

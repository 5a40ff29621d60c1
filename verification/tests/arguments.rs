use funkin_server::util::{str_equals, Argument, ArgumentParser};

fn no_value(_long: bool, _content: &str) -> Option<(&str, &str)> {
    None
}

fn split_equals(_long: bool, content: &str) -> Option<(&str, &str)> {
    content.split_once('=')
}

fn collect<'a, F>(mut parser: ArgumentParser<'a, F>) -> Vec<Argument<'a>>
where
    F: FnMut(bool, &str) -> Option<(&str, &str)>,
{
    let mut out = Vec::new();
    while let Some(a) = parser.next() {
        out.push(a);
    }
    out
}

#[test]
fn switches_and_normal_arguments() {
    let parser = ArgumentParser::new_extractor(vec!["room", "-t", "--private", "x"], no_value);
    assert_eq!(
        collect(parser),
        vec![
            Argument::Normal("room"),
            Argument::Short('t'),
            Argument::Long("private"),
            Argument::Normal("x"),
        ]
    );
}

#[test]
fn grouped_short_switches_split_into_one_per_character() {
    let parser = ArgumentParser::new_extractor(vec!["-abc", "d"], no_value);
    assert_eq!(
        collect(parser),
        vec![Argument::Short('a'), Argument::Short('b'), Argument::Short('c'), Argument::Normal("d")]
    );
}

#[test]
fn double_dash_ends_the_switches() {
    let parser = ArgumentParser::new_extractor(vec!["-a", "--", "-b", "--c", "--"], no_value);
    assert_eq!(
        collect(parser),
        vec![Argument::Short('a'), Argument::Normal("-b"), Argument::Normal("--c"), Argument::Normal("--")]
    );
}

#[test]
fn values_come_from_the_extractor() {
    let parser = ArgumentParser::new_extractor(vec!["--name=value", "-n=v", "-ab=c", "--flag"], split_equals);
    assert_eq!(
        collect(parser),
        vec![
            Argument::LongValue("name", "value"),
            Argument::ShortValue('n', "v"),
            Argument::ShortValue('a', "c"),
            Argument::Long("flag"),
        ]
    );
}

#[test]
fn rest_of_a_group_is_asked_to_the_extractor() {
    let mut questions: Vec<(bool, String)> = Vec::new();
    let parser = ArgumentParser::new_extractor(vec!["-ab=c"], |long: bool, content: &str| {
        questions.push((long, content.to_string()));
        if content.starts_with('b') { content.split_once('=') } else { None }
    });
    assert_eq!(collect(parser), vec![Argument::Short('a'), Argument::ShortValue('b', "c")]);
    assert_eq!(questions, vec![(false, "ab=c".to_string()), (false, "b=c".to_string())]);
}

#[test]
fn exhausted_parser_stays_exhausted() {
    let mut parser = ArgumentParser::new_extractor(vec!["a", "--"], no_value);
    assert_eq!(parser.next(), Some(Argument::Normal("a")));
    assert_eq!(parser.next(), None);
    assert_eq!(parser.next(), None);
    assert_eq!(parser.next(), None);
}

#[test]
fn pending_query_and_advance_take_a_step() {
    let mut parser = ArgumentParser::new_extractor(vec!["--key=v", "plain"], no_value);
    assert!(parser.can_advance());
    assert_eq!(parser.pending_query(), Some((true, "key=v")));
    assert_eq!(parser.advance(Some(("key", "v"))), Some(Argument::LongValue("key", "v")));
    assert_eq!(parser.pending_query(), None);
    assert_eq!(parser.advance(None), Some(Argument::Normal("plain")));
    assert_eq!(parser.advance(None), None);
}

#[test]
fn arguments_that_cannot_be_cut_are_detected() {
    assert!(!ArgumentParser::new_extractor(vec![""], no_value).can_advance());
    assert!(!ArgumentParser::new_extractor(vec!["-"], no_value).can_advance());
    assert!(!ArgumentParser::new_extractor(vec!["\u{e9}"], no_value).can_advance());
    assert!(!ArgumentParser::new_extractor(vec!["-\u{e9}"], no_value).can_advance());
    assert!(ArgumentParser::new_extractor(vec!["-a\u{e9}"], no_value).can_advance());
    assert!(ArgumentParser::new_extractor(Vec::<&str>::new(), no_value).can_advance());
}

#[test]
fn grouped_switches_keep_non_ascii_characters() {
    let parser = ArgumentParser::new_extractor(vec!["-a\u{e9}"], no_value);
    assert_eq!(collect(parser), vec![Argument::Short('a'), Argument::Short('\u{e9}')]);
}

#[test]
fn string_equality_compares_characters() {
    assert!(str_equals("room", "room"));
    assert!(!str_equals("room", "rooms"));
    assert!(!str_equals("\u{e9}", "e"));
    assert!(str_equals("", ""));
}

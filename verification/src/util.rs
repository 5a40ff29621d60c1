//! A command line argument parser.
//!
//! Arguments are split the usual way: `--name` is a long switch, `-n` a
//! short one, `-abc` the short switches `a`, `b` and `c`, anything else a
//! normal argument, and everything after `--` is normal. A value extractor,
//! given whether a switch is long and its text after the dashes, may split
//! it into a name and a value (`--name=value`, `-n=value`).

use vstd::prelude::*;

verus! {

/// One parsed command line argument.
#[derive(Debug, Clone, Copy, PartialEq, Eq)]
pub enum Argument<'a> {
    Short(char),
    ShortValue(char, &'a str),
    Long(&'a str),
    LongValue(&'a str, &'a str),
    Normal(&'a str),
}

/// The abstract value of an [`Argument`].
pub enum ArgumentView {
    Short(char),
    ShortValue(char, Seq<char>),
    Long(Seq<char>),
    LongValue(Seq<char>, Seq<char>),
    Normal(Seq<char>),
}

impl<'a> View for Argument<'a> {
    type V = ArgumentView;

    open spec fn view(&self) -> ArgumentView {
        match *self {
            Argument::Short(c) => ArgumentView::Short(c),
            Argument::ShortValue(c, v) => ArgumentView::ShortValue(c, v@),
            Argument::Long(n) => ArgumentView::Long(n@),
            Argument::LongValue(n, v) => ArgumentView::LongValue(n@, v@),
            Argument::Normal(a) => ArgumentView::Normal(a@),
        }
    }
}

/// What the parser does with the next argument.
#[derive(Debug, Clone, Copy)]
enum SpecialState<'a> {
    /// The rest of a group of short switches, still to be split.
    LastShortContinue(&'a str),
    /// `--` was seen: every further argument is normal.
    SwitchesEnd,
    /// The next argument is taken as it comes.
    Plain,
}

/// The abstract value of the parser's state.
pub enum PendingView {
    /// The rest of a group of short switches, never empty.
    Continue(Seq<char>),
    /// Every further argument is normal.
    SwitchesEnd,
    /// The next argument is taken as it comes.
    Plain,
}

/// Parses command line arguments one at a time; `value_extractor` may split
/// a switch into a name and a value.
pub struct ArgumentParser<'a, F> where F: FnMut(bool, &str) -> Option<(&str, &str)> {
    state: SpecialState<'a>,
    value_extractor: F,
    arguments: Vec<&'a str>,
    next_index: usize,
}

/// The abstract value of the value extractor's answer.
pub open spec fn view_answer(answer: Option<(&str, &str)>) -> Option<(Seq<char>, Seq<char>)> {
    match answer {
        Some((name, value)) => Some((name@, value@)),
        None => None,
    }
}

/// The abstract value of the parser's result.
pub open spec fn view_result(r: Option<Argument>) -> Option<ArgumentView> {
    match r {
        Some(a) => Some(a@),
        None => None,
    }
}

/// Whether the text `s` can be cut after its first byte: it is not empty
/// and starts with an ASCII character.
pub open spec fn splittable(s: Seq<char>) -> bool {
    s.len() > 0 && (s[0] as int) < 128
}

/// The question that the next step puts to the value extractor, if any:
/// whether the switch is long, and its text after the dashes.
pub open spec fn query(p: PendingView, rest: Seq<Seq<char>>) -> Option<(bool, Seq<char>)> {
    match p {
        PendingView::Plain => if rest.len() == 0 {
            None
        } else {
            let a = rest[0];
            if a.len() > 0 && a[0] == '-' {
                let r = a.drop_first();
                if r.len() > 0 && r[0] == '-' {
                    if r.drop_first().len() == 0 {
                        None
                    } else {
                        Some((true, r.drop_first()))
                    }
                } else {
                    Some((false, r))
                }
            } else {
                None
            }
        },
        PendingView::SwitchesEnd => None,
        PendingView::Continue(c) => Some((false, c)),
    }
}

/// Whether the next step can cut the next argument where it must: an
/// argument taken as it comes has to start with an ASCII character, and when
/// that is a dash, so does the rest.
pub open spec fn split_ok(p: PendingView, rest: Seq<Seq<char>>) -> bool {
    match p {
        PendingView::Plain => rest.len() > 0 ==> (splittable(rest[0]) && (rest[0][0] == '-'
            ==> splittable(rest[0].drop_first()))),
        _ => true,
    }
}

/// Whether `answer` is one the next step can use: a short switch's name
/// must have a first character.
pub open spec fn answer_ok(
    p: PendingView,
    rest: Seq<Seq<char>>,
    answer: Option<(Seq<char>, Seq<char>)>,
) -> bool {
    match query(p, rest) {
        Some((false, _)) => answer matches Some((name, _)) ==> name.len() > 0,
        _ => true,
    }
}

/// A group of short switches still to split is never empty.
pub open spec fn pending_valid(p: PendingView) -> bool {
    p matches PendingView::Continue(c) ==> c.len() > 0
}

/// The state that continues a group of short switches with `c`.
pub open spec fn continue_with(c: Seq<char>) -> PendingView {
    if c.len() > 0 {
        PendingView::Continue(c)
    } else {
        PendingView::Plain
    }
}

/// One step after `--`: the next argument, if any, is normal.
pub open spec fn after_switches(rest: Seq<Seq<char>>) -> (
    Option<ArgumentView>,
    PendingView,
    Seq<Seq<char>>,
) {
    if rest.len() == 0 {
        (None, PendingView::SwitchesEnd, rest)
    } else {
        (Some(ArgumentView::Normal(rest[0])), PendingView::SwitchesEnd, rest.drop_first())
    }
}

/// One step of the parser in state `p` with arguments `rest` left, when the
/// value extractor answers `answer`: the argument produced (if any), the
/// new state, and the arguments left.
pub open spec fn advance(
    p: PendingView,
    rest: Seq<Seq<char>>,
    answer: Option<(Seq<char>, Seq<char>)>,
) -> (Option<ArgumentView>, PendingView, Seq<Seq<char>>) {
    match p {
        PendingView::Plain => if rest.len() == 0 {
            (None, PendingView::Plain, rest)
        } else {
            let a = rest[0];
            let later = rest.drop_first();
            if a[0] == '-' {
                let r = a.drop_first();
                if r[0] == '-' {
                    if r.drop_first().len() == 0 {
                        after_switches(later)
                    } else {
                        match answer {
                            Some((name, value)) => (
                                Some(ArgumentView::LongValue(name, value)),
                                PendingView::Plain,
                                later,
                            ),
                            None => (
                                Some(ArgumentView::Long(r.drop_first())),
                                PendingView::Plain,
                                later,
                            ),
                        }
                    }
                } else {
                    match answer {
                        Some((name, value)) => (
                            Some(ArgumentView::ShortValue(name[0], value)),
                            PendingView::Plain,
                            later,
                        ),
                        None => (
                            Some(ArgumentView::Short(r[0])),
                            continue_with(r.drop_first()),
                            later,
                        ),
                    }
                }
            } else {
                (Some(ArgumentView::Normal(a)), PendingView::Plain, later)
            }
        },
        PendingView::SwitchesEnd => after_switches(rest),
        PendingView::Continue(c) => match answer {
            Some((name, value)) => (
                Some(ArgumentView::ShortValue(name[0], value)),
                PendingView::Plain,
                rest,
            ),
            None => (Some(ArgumentView::Short(c[0])), continue_with(c.drop_first()), rest),
        },
    }
}

/// How much of a group of short switches is left to split.
pub open spec fn pending_len(p: PendingView) -> nat {
    match p {
        PendingView::Continue(c) => c.len() + 1,
        _ => 0,
    }
}

/// The arguments that the parser in state `p`, with arguments `rest` left,
/// produces one after another when the value extractor never splits a
/// switch, up to the first step that produces none.
pub open spec fn tokens(p: PendingView, rest: Seq<Seq<char>>) -> Seq<ArgumentView>
    decreases rest.len(), pending_len(p),
{
    if p matches PendingView::Continue(c) && c.len() == 0 {
        Seq::empty()
    } else {
        let step = advance(p, rest, None);
        match step.0 {
            None => Seq::empty(),
            Some(a) => {
                proof {
                    lemma_step_shrinks(p, rest);
                }
                seq![a] + tokens(step.1, step.2)
            },
        }
    }
}

/// Whether the parser in state `p`, with arguments `rest` left, can produce
/// all of [`tokens`] without failing to cut an argument.
pub open spec fn tokens_ok(p: PendingView, rest: Seq<Seq<char>>) -> bool
    decreases rest.len(), pending_len(p),
{
    if p matches PendingView::Continue(c) && c.len() == 0 {
        true
    } else {
        let step = advance(p, rest, None);
        split_ok(p, rest) && match step.0 {
            None => true,
            Some(a) => {
                proof {
                    lemma_step_shrinks(p, rest);
                }
                tokens_ok(step.1, step.2)
            },
        }
    }
}

/// A step that produces an argument takes an argument or shortens the group
/// of short switches being split.
pub proof fn lemma_step_shrinks(p: PendingView, rest: Seq<Seq<char>>)
    requires
        !(p matches PendingView::Continue(c) && c.len() == 0),
        advance(p, rest, None).0 is Some,
    ensures
        advance(p, rest, None).2.len() < rest.len() || (advance(p, rest, None).2.len() == rest.len()
            && pending_len(advance(p, rest, None).1) < pending_len(p)),
{
}

impl<'a> SpecialState<'a> {
    spec fn view(self) -> PendingView {
        match self {
            SpecialState::LastShortContinue(c) => PendingView::Continue(c@),
            SpecialState::SwitchesEnd => PendingView::SwitchesEnd,
            SpecialState::Plain => PendingView::Plain,
        }
    }
}

impl<'a, F> ArgumentParser<'a, F> where F: FnMut(bool, &str) -> Option<(&str, &str)> {
    /// The parser's state.
    pub closed spec fn pending(&self) -> PendingView {
        self.state.view()
    }

    /// The arguments not taken yet.
    pub closed spec fn remaining(&self) -> Seq<Seq<char>> {
        Seq::new(
            (self.arguments@.len() - self.next_index) as nat,
            |k: int| self.arguments@[self.next_index + k]@,
        )
    }

    /// The value extractor.
    pub closed spec fn extractor(&self) -> F {
        self.value_extractor
    }

    /// The parser's invariant: its position lies within the arguments, and
    /// a group of short switches still to split is not empty.
    pub closed spec fn well_formed(&self) -> bool {
        &&& self.next_index <= self.arguments@.len()
        &&& self.state matches SpecialState::LastShortContinue(c) ==> c@.len() > 0
    }

    /// A parser of `arguments` whose switches `value_extractor` may split.
    pub fn new_extractor(arguments: Vec<&'a str>, value_extractor: F) -> (parser: Self)
        ensures
            parser.well_formed(),
            pending_valid(parser.pending()),
            parser.pending() == PendingView::Plain,
            parser.remaining() == arguments@.map_values(|a: &str| a@),
            parser.extractor() == value_extractor,
    {
        let parser = ArgumentParser {
            state: SpecialState::Plain,
            arguments,
            value_extractor,
            next_index: 0,
        };
        assert(parser.remaining() =~= arguments@.map_values(|a: &str| a@));
        parser
    }

    /// The question that the next step puts to the value extractor, if any.
    pub fn pending_query(&self) -> (q: Option<(bool, &'a str)>)
        requires
            self.well_formed(),
        ensures
            match q {
                Some((long, content)) => query(self.pending(), self.remaining()) == Some(
                    (long, content@),
                ),
                None => query(self.pending(), self.remaining()) is None,
            },
    {
        match self.state {
            SpecialState::Plain => {
                if self.next_index >= self.arguments.len() {
                    return None;
                }
                let arg = self.arguments[self.next_index];
                assert(arg@ == self.remaining()[0]);
                let n = arg.unicode_len();
                if n == 0 || arg.get_char(0) != '-' {
                    return None;
                }
                let rest = arg.substring_char(1, n);
                assert(rest@ =~= arg@.drop_first());
                if n - 1 > 0 && rest.get_char(0) == '-' {
                    if n - 2 == 0 {
                        None
                    } else {
                        let content = rest.substring_char(1, n - 1);
                        assert(content@ =~= rest@.drop_first());
                        Some((true, content))
                    }
                } else {
                    Some((false, rest))
                }
            },
            SpecialState::SwitchesEnd => None,
            SpecialState::LastShortContinue(c) => Some((false, c)),
        }
    }

    /// Whether the parser's state is valid: see [`pending_valid`].
    pub proof fn lemma_pending_valid(&self)
        requires
            self.well_formed(),
        ensures
            pending_valid(self.pending()),
    {
    }

    /// Whether the next step can cut the next argument where it must: see
    /// [`split_ok`].
    pub fn can_advance(&self) -> (b: bool)
        requires
            self.well_formed(),
        ensures
            b == split_ok(self.pending(), self.remaining()),
    {
        match self.state {
            SpecialState::Plain => {
                if self.next_index >= self.arguments.len() {
                    return true;
                }
                let arg = self.arguments[self.next_index];
                assert(arg@ == self.remaining()[0]);
                let n = arg.unicode_len();
                if n == 0 {
                    return false;
                }
                let first = arg.get_char(0);
                if (first as u32) >= 128 {
                    return false;
                }
                if first != '-' {
                    return true;
                }
                if n < 2 {
                    return false;
                }
                (arg.get_char(1) as u32) < 128
            },
            _ => true,
        }
    }

    /// Takes the next argument, if any, as a normal one.
    fn take_normal(&mut self) -> (r: Option<Argument<'a>>)
        requires
            old(self).well_formed(),
            old(self).state matches SpecialState::SwitchesEnd,
        ensures
            final(self).well_formed(),
            final(self).extractor() == old(self).extractor(),
            (view_result(r), final(self).pending(), final(self).remaining()) == after_switches(
                old(self).remaining(),
            ),
    {
        if self.next_index >= self.arguments.len() {
            return None;
        }
        let arg = self.arguments[self.next_index];
        let ghost before = self.remaining();
        self.next_index = self.next_index + 1;
        assert(self.remaining() =~= before.drop_first());
        Some(Argument::Normal(arg))
    }

    /// One step of the parser, given the value extractor's answer to the
    /// step's question (see [`ArgumentParser::pending_query`]).
    pub fn advance(&mut self, answer: Option<(&'a str, &'a str)>) -> (r: Option<Argument<'a>>)
        requires
            old(self).well_formed(),
            split_ok(old(self).pending(), old(self).remaining()),
            answer_ok(old(self).pending(), old(self).remaining(), view_answer(answer)),
        ensures
            final(self).well_formed(),
            pending_valid(final(self).pending()),
            final(self).extractor() == old(self).extractor(),
            (view_result(r), final(self).pending(), final(self).remaining()) == advance(
                old(self).pending(),
                old(self).remaining(),
                view_answer(answer),
            ),
    {
        let ghost before = self.remaining();
        match self.state {
            SpecialState::Plain => {
                if self.next_index >= self.arguments.len() {
                    return None;
                }
                let arg = self.arguments[self.next_index];
                assert(arg@ == before[0]);
                self.next_index = self.next_index + 1;
                assert(self.remaining() =~= before.drop_first());
                let n = arg.unicode_len();
                if arg.get_char(0) == '-' {
                    let rest = arg.substring_char(1, n);
                    assert(rest@ =~= arg@.drop_first());
                    let second = rest.get_char(0);
                    if second == '-' {
                        let rest2 = rest.substring_char(1, n - 1);
                        assert(rest2@ =~= rest@.drop_first());
                        if n - 2 == 0 {
                            self.state = SpecialState::SwitchesEnd;
                            return self.take_normal();
                        }
                        match answer {
                            Some((name, value)) => Some(Argument::LongValue(name, value)),
                            None => Some(Argument::Long(rest2)),
                        }
                    } else {
                        match answer {
                            Some((name, value)) => Some(Argument::ShortValue(name.get_char(0), value)),
                            None => {
                                if n - 1 > 1 {
                                    let later = rest.substring_char(1, n - 1);
                                    assert(later@ =~= rest@.drop_first());
                                    self.state = SpecialState::LastShortContinue(later);
                                }
                                Some(Argument::Short(second))
                            },
                        }
                    }
                } else {
                    Some(Argument::Normal(arg))
                }
            },
            SpecialState::SwitchesEnd => self.take_normal(),
            SpecialState::LastShortContinue(c) => {
                match answer {
                    Some((name, value)) => {
                        self.state = SpecialState::Plain;
                        Some(Argument::ShortValue(name.get_char(0), value))
                    },
                    None => {
                        let n = c.unicode_len();
                        let first = c.get_char(0);
                        if n > 1 {
                            let later = c.substring_char(1, n);
                            assert(later@ =~= c@.drop_first());
                            self.state = SpecialState::LastShortContinue(later);
                        } else {
                            self.state = SpecialState::Plain;
                        }
                        Some(Argument::Short(first))
                    },
                }
            },
        }
    }
}

impl<'a, F> ArgumentParser<'a, F> where F: FnMut(bool, &str) -> Option<(&str, &str)> {
    /// The next argument, if any: asks the value extractor the step's
    /// question, if there is one, and takes the step with its answer.
    pub fn next(&mut self) -> (r: Option<Argument<'a>>)
        requires
            old(self).well_formed(),
            split_ok(old(self).pending(), old(self).remaining()),
            forall|long: bool, t: &'a str| #[trigger] call_requires(old(self).extractor(), (long, t)),
            forall|t: &'a str, a: Option<(&'a str, &'a str)>|
                query(old(self).pending(), old(self).remaining()) == Some((false, t@))
                    && #[trigger] call_ensures(old(self).extractor(), (false, t), a) ==> answer_ok(
                    old(self).pending(),
                    old(self).remaining(),
                    view_answer(a),
                ),
        ensures
            final(self).well_formed(),
            pending_valid(final(self).pending()),
            final(self).extractor() == old(self).extractor(),
            match query(old(self).pending(), old(self).remaining()) {
                None => (view_result(r), final(self).pending(), final(self).remaining())
                    == advance(old(self).pending(), old(self).remaining(), None),
                Some((long, content)) => exists|t: &'a str, a: Option<(&'a str, &'a str)>|
                    t@ == content && #[trigger] call_ensures(old(self).extractor(), (long, t), a)
                        && (view_result(r), final(self).pending(), final(self).remaining())
                        == advance(old(self).pending(), old(self).remaining(), view_answer(a)),
            },
    {
        let q = self.pending_query();
        match q {
            Some((long, content)) => {
                let ghost f = self.extractor();
                let ghost p = self.pending();
                let ghost rest = self.remaining();
                assert(call_requires(f, (long, content)));
                let answer = (self.value_extractor)(long, content);
                assert(call_ensures(f, (long, content), answer));
                assert(self.extractor() == f && self.pending() == p && self.remaining() == rest);
                let r = self.advance(answer);
                assert((view_result(r), self.pending(), self.remaining()) == advance(
                    p,
                    rest,
                    view_answer(answer),
                ));
                assert(query(p, rest) == Some((long, content@)));
                assert(match query(old(self).pending(), old(self).remaining()) {
                    None => true,
                    Some((lg, ct)) => exists|t: &'a str, a: Option<(&'a str, &'a str)>|
                        t@ == ct && #[trigger] call_ensures(old(self).extractor(), (lg, t), a)
                            && (view_result(r), self.pending(), self.remaining())
                            == advance(old(self).pending(), old(self).remaining(), view_answer(a)),
                });
                r
            },
            None => self.advance(None),
        }
    }
}

/// Whether `s` and `t` hold the same characters.
pub fn str_equals(s: &str, t: &str) -> (r: bool)
    ensures
        r == (s@ == t@),
{
    let n = s.unicode_len();
    if n != t.unicode_len() {
        return false;
    }
    let mut i: usize = 0;
    while i < n
        invariant
            n == s@.len(),
            n == t@.len(),
            i <= n,
            forall|k: int| 0 <= k < i ==> s@[k] == t@[k],
        decreases n - i,
    {
        if s.get_char(i) != t.get_char(i) {
            return false;
        }
        i = i + 1;
    }
    assert(s@ =~= t@);
    true
}

} // verus!

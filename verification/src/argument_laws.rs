//! Properties of the argument parser that hold across its steps.

use vstd::prelude::*;
use crate::util::{ArgumentView, PendingView, advance, splittable, tokens, tokens_ok};

verus! {

/// One short switch for each character of `c`.
pub open spec fn shorts_of(c: Seq<char>) -> Seq<ArgumentView>
    decreases c.len(),
{
    if c.len() == 0 {
        Seq::empty()
    } else {
        seq![first_short(c)] + shorts_of(c.drop_first())
    }
}

/// The short switch of the first character of `c`.
pub open spec fn first_short(c: Seq<char>) -> ArgumentView {
    ArgumentView::Short(c[0])
}

/// Every argument that follows `--` is a normal argument, whatever it
/// looks like, and producing them never fails.
pub proof fn lemma_after_switches_all_normal(rest: Seq<Seq<char>>)
    ensures
        tokens(PendingView::SwitchesEnd, rest) == rest.map_values(|a: Seq<char>| ArgumentView::Normal(a)),
        tokens_ok(PendingView::SwitchesEnd, rest),
    decreases rest.len(),
{
    if rest.len() > 0 {
        lemma_after_switches_all_normal(rest.drop_first());
        assert(tokens(PendingView::SwitchesEnd, rest) =~= rest.map_values(
            |a: Seq<char>| ArgumentView::Normal(a),
        ));
    } else {
        assert(tokens(PendingView::SwitchesEnd, rest) =~= rest.map_values(
            |a: Seq<char>| ArgumentView::Normal(a),
        ));
    }
}

/// `--` ends the switches: it produces nothing itself, and every argument
/// after it is normal.
pub proof fn lemma_double_dash_ends_switches(rest: Seq<Seq<char>>)
    ensures
        tokens(PendingView::Plain, seq![seq!['-', '-']] + rest) == rest.map_values(
            |a: Seq<char>| ArgumentView::Normal(a),
        ),
        tokens_ok(PendingView::Plain, seq![seq!['-', '-']] + rest),
{
    let all = seq![seq!['-', '-']] + rest;
    assert(all[0] == seq!['-', '-']);
    assert(all.drop_first() =~= rest);
    assert(all[0].drop_first().drop_first().len() == 0);
    lemma_after_switches_all_normal(rest);
    if rest.len() > 0 {
        assert(rest.drop_first() =~= rest.drop_first());
        assert(tokens(PendingView::Plain, all) == tokens(PendingView::SwitchesEnd, rest));
    }
}

/// The rest `c` of a group of short switches produces one short switch per
/// character, then the parser goes on with the next arguments.
pub proof fn lemma_short_group_rest(c: Seq<char>, rest: Seq<Seq<char>>)
    requires
        c.len() > 0,
    ensures
        tokens(PendingView::Continue(c), rest) == shorts_of(c)
            + tokens(PendingView::Plain, rest),
        tokens_ok(PendingView::Continue(c), rest) == tokens_ok(PendingView::Plain, rest),
    decreases c.len(),
{
    let shorts = shorts_of(c);
    if c.len() == 1 {
        assert(c.drop_first().len() == 0);
        assert(tokens(PendingView::Continue(c), rest) =~= shorts + tokens(PendingView::Plain, rest));
    } else {
        let later = c.drop_first();
        lemma_short_group_rest(later, rest);
        assert(tokens(PendingView::Continue(c), rest) =~= shorts + tokens(PendingView::Plain, rest));
    }
}

/// A group of short switches `-abc` is the short switches `a`, `b` and `c`,
/// one after another, when its first character is ASCII and not a dash.
pub proof fn lemma_short_group(c: Seq<char>, rest: Seq<Seq<char>>)
    requires
        c.len() > 0,
        (c[0] as int) < 128,
        c[0] != '-',
    ensures
        tokens(PendingView::Plain, seq![seq!['-'] + c] + rest) == shorts_of(c) + tokens(PendingView::Plain, rest),
        tokens_ok(PendingView::Plain, seq![seq!['-'] + c] + rest) == tokens_ok(
            PendingView::Plain,
            rest,
        ),
{
    let arg = seq!['-'] + c;
    let all = seq![arg] + rest;
    assert(all[0] == arg);
    assert(all.drop_first() =~= rest);
    assert(arg.drop_first() =~= c);
    let shorts = shorts_of(c);
    if c.len() == 1 {
        assert(c.drop_first().len() == 0);
        assert(shorts_of(c.drop_first()) =~= Seq::<ArgumentView>::empty());
        assert(tokens(PendingView::Plain, all) =~= shorts + tokens(PendingView::Plain, rest));
    } else {
        lemma_short_group_rest(c.drop_first(), rest);
        assert(tokens(PendingView::Plain, all) =~= shorts + tokens(PendingView::Plain, rest));
    }
}

/// Arguments that do not start with a dash are normal arguments, and
/// producing them never fails when each starts with an ASCII character.
pub proof fn lemma_words_are_normal(words: Seq<Seq<char>>)
    requires
        forall|k: int|
            0 <= k < words.len() ==> (#[trigger] words[k]).len() > 0 && words[k][0] != '-',
    ensures
        tokens(PendingView::Plain, words) == words.map_values(|a: Seq<char>| ArgumentView::Normal(a)),
        tokens_ok(PendingView::Plain, words) <==> (forall|k: int|
            0 <= k < words.len() ==> ((#[trigger] words[k])[0] as int) < 128),
    decreases words.len(),
{
    if words.len() > 0 {
        let later = words.drop_first();
        assert forall|k: int| 0 <= k < later.len() implies (#[trigger] later[k]).len() > 0
            && later[k][0] != '-' by {
            assert(later[k] == words[k + 1]);
        }
        lemma_words_are_normal(later);
        assert(tokens(PendingView::Plain, words) =~= words.map_values(
            |a: Seq<char>| ArgumentView::Normal(a),
        ));
        if tokens_ok(PendingView::Plain, words) {
            assert forall|k: int| 0 <= k < words.len() implies ((#[trigger] words[k])[0] as int)
                < 128 by {
                if k > 0 {
                    assert(words[k] == later[k - 1]);
                }
            }
        }
        if forall|k: int| 0 <= k < words.len() ==> ((#[trigger] words[k])[0] as int) < 128 {
            assert forall|k: int| 0 <= k < later.len() implies ((#[trigger] later[k])[0] as int)
                < 128 by {
                assert(later[k] == words[k + 1]);
            }
        }
    } else {
        assert(tokens(PendingView::Plain, words) =~= words.map_values(
            |a: Seq<char>| ArgumentView::Normal(a),
        ));
    }
}

/// Once a step produces no argument, the parser is unchanged, so every
/// later step produces none either, whatever the value extractor answers.
pub proof fn lemma_exhausted_stays_exhausted(
    p: PendingView,
    rest: Seq<Seq<char>>,
    first: Option<(Seq<char>, Seq<char>)>,
    second: Option<(Seq<char>, Seq<char>)>,
)
    requires
        advance(p, rest, first).0 is None,
    ensures
        advance(advance(p, rest, first).1, advance(p, rest, first).2, second).0 is None,
        advance(advance(p, rest, first).1, advance(p, rest, first).2, second).1 == advance(
            p,
            rest,
            first,
        ).1,
        advance(advance(p, rest, first).1, advance(p, rest, first).2, second).2 == advance(
            p,
            rest,
            first,
        ).2,
{
}

/// A long switch `--name` is the long switch `name`, when `name` is not empty.
pub proof fn lemma_long_switch(name: Seq<char>, rest: Seq<Seq<char>>)
    requires
        name.len() > 0,
    ensures
        tokens(PendingView::Plain, seq![seq!['-', '-'] + name] + rest) == seq![
            ArgumentView::Long(name),
        ] + tokens(PendingView::Plain, rest),
        tokens_ok(PendingView::Plain, seq![seq!['-', '-'] + name] + rest) == tokens_ok(
            PendingView::Plain,
            rest,
        ),
{
    let arg = seq!['-', '-'] + name;
    let all = seq![arg] + rest;
    assert(all[0] == arg);
    assert(all.drop_first() =~= rest);
    assert(arg.drop_first().drop_first() =~= name);
}

/// A normal argument, one that does not start with a dash, is itself.
proof fn lemma_normal_word(word: Seq<char>, rest: Seq<Seq<char>>)
    requires
        word.len() > 0,
        word[0] != '-',
    ensures
        tokens(PendingView::Plain, seq![word] + rest) == seq![ArgumentView::Normal(word)] + tokens(
            PendingView::Plain,
            rest,
        ),
        tokens_ok(PendingView::Plain, seq![word] + rest) == (splittable(word) && tokens_ok(
            PendingView::Plain,
            rest,
        )),
{
    let all = seq![word] + rest;
    assert(all[0] == word);
    assert(all.drop_first() =~= rest);
}

/// What one argument (not `--`) produces: `--name` the long switch `name`,
/// `-abc` a short switch per character, anything else itself.
pub open spec fn expand_one(a: Seq<char>) -> Seq<ArgumentView> {
    if a.len() > 0 && a[0] == '-' {
        if a.len() > 1 && a[1] == '-' {
            seq![ArgumentView::Long(a.skip(2))]
        } else {
            shorts_of(a.drop_first())
        }
    } else {
        seq![ArgumentView::Normal(a)]
    }
}

/// What a whole command line produces: each argument in turn, up to `--`,
/// after which every argument is normal.
pub open spec fn expand(args: Seq<Seq<char>>) -> Seq<ArgumentView>
    decreases args.len(),
{
    if args.len() == 0 {
        Seq::empty()
    } else if args[0] == seq!['-', '-'] {
        args.drop_first().map_values(|a: Seq<char>| ArgumentView::Normal(a))
    } else {
        expand_one(args[0]) + expand(args.drop_first())
    }
}

/// Whether every argument before the first `--` can be cut: it starts with
/// an ASCII character, and when that is a dash, the next one is ASCII too.
pub open spec fn cuttable(args: Seq<Seq<char>>) -> bool
    decreases args.len(),
{
    if args.len() == 0 {
        true
    } else if args[0] == seq!['-', '-'] {
        true
    } else {
        &&& splittable(args[0])
        &&& args[0][0] == '-' ==> splittable(args[0].drop_first())
        &&& cuttable(args.drop_first())
    }
}

/// The arguments that a whole command line produces, when the value
/// extractor never splits a switch: each argument in turn expands as
/// [`expand_one`] says, up to `--`, after which every argument is normal;
/// and producing them never fails when the arguments can be cut.
pub proof fn lemma_command_line(args: Seq<Seq<char>>)
    requires
        cuttable(args),
    ensures
        tokens(PendingView::Plain, args) == expand(args),
        tokens_ok(PendingView::Plain, args),
    decreases args.len(),
{
    if args.len() > 0 {
        let a = args[0];
        let rest = args.drop_first();
        assert(args =~= seq![a] + rest);
        if a == seq!['-', '-'] {
            lemma_double_dash_ends_switches(rest);
        } else {
            lemma_command_line(rest);
            if a[0] == '-' {
                let c = a.drop_first();
                if c[0] == '-' {
                    let name = a.skip(2);
                    assert(a =~= seq!['-', '-'] + name);
                    if name.len() == 0 {
                        assert(a =~= seq!['-', '-']);
                    }
                    lemma_long_switch(name, rest);
                } else {
                    assert(a =~= seq!['-'] + c);
                    lemma_short_group(c, rest);
                }
            } else {
                lemma_normal_word(a, rest);
            }
        }
    }
}

/// How many arguments a command line can produce at most: one per argument,
/// or one per character of a longer argument.
pub open spec fn item_bound(args: Seq<Seq<char>>) -> nat
    decreases args.len(),
{
    if args.len() == 0 {
        0
    } else {
        (if args[0].len() > 1 { args[0].len() } else { 1 }) + item_bound(args.drop_first())
    }
}

proof fn lemma_shorts_len(c: Seq<char>)
    ensures
        shorts_of(c).len() == c.len(),
    decreases c.len(),
{
    if c.len() > 0 {
        lemma_shorts_len(c.drop_first());
    }
}

proof fn lemma_bound_covers_count(args: Seq<Seq<char>>)
    ensures
        args.len() <= item_bound(args),
    decreases args.len(),
{
    if args.len() > 0 {
        lemma_bound_covers_count(args.drop_first());
    }
}

proof fn lemma_expand_bounded(args: Seq<Seq<char>>)
    ensures
        expand(args).len() <= item_bound(args),
    decreases args.len(),
{
    if args.len() > 0 {
        let a = args[0];
        lemma_expand_bounded(args.drop_first());
        if a == seq!['-', '-'] {
            lemma_bound_covers_count(args.drop_first());
        } else if a.len() > 0 && a[0] == '-' && !(a.len() > 1 && a[1] == '-') {
            lemma_shorts_len(a.drop_first());
        }
    }
}

/// A command line whose arguments can be cut produces at most one argument
/// per argument, or per character of a longer argument, before the parser
/// produces none.
pub proof fn lemma_items_bounded(args: Seq<Seq<char>>)
    requires
        cuttable(args),
    ensures
        tokens(PendingView::Plain, args).len() <= item_bound(args),
{
    lemma_command_line(args);
    lemma_expand_bounded(args);
}

} // verus!

//! Options and string words take the token after their name.

use vstd::prelude::*;
use crate::argument::{ArgKind, ArgModel, WordValue};
use crate::laws::defaults::{after, mentions, step_spares, walk_around};
use crate::laws::frame::{later_keeps_names, run_first, step_keeps_declarations};
use crate::registry::word_named;
use crate::walk::{
    cluster, dashed, help_name, long_form, run, second, short_step, step, value_after,
    version_name, ExitModel, Walk,
};

verus! {

/// The long token of a name: two dashes and the name.
pub open spec fn long_token(name: Seq<char>) -> Seq<char> {
    seq!['-', '-'] + name
}

/// The short token of a single short name: a dash and the character.
pub open spec fn short_token(c: char) -> Seq<char> {
    seq!['-', c]
}

/// What `--name` of an option does: the option takes the value after it,
/// if there is one, and the walk goes on.
pub proof fn long_step_picks(args: Seq<ArgModel>, i: int, next: Option<Seq<char>>)
    requires
        0 <= i < args.len(),
        args[i].kind is Opt,
        args[i].name != help_name(),
        args[i].name != version_name(),
        !word_named(args, long_token(args[i].name)),
    ensures
        step(args, long_token(args[i].name), next).exit is None,
        step(args, long_token(args[i].name), next).args[i] == (match value_after(next) {
            Some(v) => ArgModel { kind: ArgKind::Opt(v), set: true, ..args[i] },
            None => args[i],
        }),
{
    let t = long_token(args[i].name);
    assert(t.skip(2) =~= args[i].name);
}

/// What the short token of an option does: the option takes the value
/// after it, if there is one; a token with a dash after it stops the walk
/// and changes nothing.
pub proof fn short_step_picks(args: Seq<ArgModel>, i: int, next: Option<Seq<char>>)
    requires
        0 <= i < args.len(),
        args[i].kind is Opt,
        args[i].short != 'h',
        args[i].short != 'v',
        args[i].short != '-',
        !word_named(args, short_token(args[i].short)),
    ensures
        next is Some && dashed(next->0) ==> step(args, short_token(args[i].short), next) == (Walk {
            args,
            exit: Some(ExitModel::Unexpected(next->0)),
        }),
        !(next is Some && dashed(next->0)) ==> step(
            args,
            short_token(args[i].short),
            next,
        ).exit is None,
        step(args, short_token(args[i].short), next).args[i] == (match value_after(next) {
            Some(v) => ArgModel { kind: ArgKind::Opt(v), set: true, ..args[i] },
            None => args[i],
        }),
{
    let c = args[i].short;
    let t = short_token(c);
    let cs = t.skip(1);
    let w = short_step(args, c, next);
    assert(cluster(w.args, cs.drop_first(), next) == (Walk { args: w.args, exit: None }));
}

/// What the name of a string word does: the word takes the value after
/// it, if there is one, and the walk goes on.
pub proof fn word_step_picks(args: Seq<ArgModel>, i: int, next: Option<Seq<char>>)
    requires
        0 <= i < args.len(),
        args[i].kind is Word,
        args[i].kind->Word_0 is Text,
    ensures
        step(args, args[i].name, next).exit is None,
        step(args, args[i].name, next).args[i] == (match value_after(next) {
            Some(v) => ArgModel { kind: ArgKind::Word(WordValue::Text(v)), set: true, ..args[i] },
            None => args[i],
        }),
{
}

/// A token with no token after it leaves every option as it is.
pub proof fn last_token_keeps_option(args: Seq<ArgModel>, t: Seq<char>, i: int)
    requires
        0 <= i < args.len(),
        args[i].kind is Opt,
    ensures
        step(args, t, None).args[i] == args[i],
        !dashed(t) ==> step(args, t, None).exit is None,
{
    if !word_named(args, t) && !long_form(t) && dashed(t) {
        cluster_keeps_option(args, t.skip(1), i);
    }
}

/// A short token with no token after it leaves every option as it is.
proof fn cluster_keeps_option(args: Seq<ArgModel>, cs: Seq<char>, i: int)
    requires
        0 <= i < args.len(),
        args[i].kind is Opt,
    ensures
        cluster(args, cs, None).args[i] == args[i],
    decreases cs.len(),
{
    if cs.len() > 0 {
        let w = short_step(args, cs[0], None);
        if w.exit is None {
            cluster_keeps_option(w.args, cs.drop_first(), i);
        }
    }
}

/// Where `--name` of an option is followed by a token without a dash, and no
/// other token speaks of the option, the option has that token as its value
/// after a walk that reaches the end.
pub proof fn long_option_takes_value(args: Seq<ArgModel>, tokens: Seq<Seq<char>>, n: int, i: int)
    requires
        0 <= i < args.len(),
        args[i].kind is Opt,
        args[i].name != help_name(),
        args[i].name != version_name(),
        !word_named(args, long_token(args[i].name)),
        0 <= n < tokens.len() - 1,
        tokens[n] == long_token(args[i].name),
        !dashed(tokens[n + 1]),
        forall|k: int| 0 <= k < tokens.len() && k != n ==> !mentions(#[trigger] tokens[k], args[i]),
        run(args, tokens).exit is None,
    ensures
        run(args, tokens).args[i] == (ArgModel {
            kind: ArgKind::Opt(tokens[n + 1]),
            set: true,
            ..args[i]
        }),
{
    let mid = run_first(args, tokens, n as nat);
    walk_around(args, tokens, n, i);
    later_keeps_names(args, mid.args);
    long_step_picks(mid.args, i, after(tokens, n));
}

/// Where `--name` of an option is the last token or is followed by a token
/// with a dash, and no other token speaks of the option, the option keeps
/// its default.
pub proof fn long_option_without_value(args: Seq<ArgModel>, tokens: Seq<Seq<char>>, n: int, i: int)
    requires
        0 <= i < args.len(),
        args[i].kind is Opt,
        args[i].name != help_name(),
        args[i].name != version_name(),
        !word_named(args, long_token(args[i].name)),
        0 <= n < tokens.len(),
        tokens[n] == long_token(args[i].name),
        n + 1 < tokens.len() ==> dashed(tokens[n + 1]),
        forall|k: int| 0 <= k < tokens.len() && k != n ==> !mentions(#[trigger] tokens[k], args[i]),
    ensures
        run(args, tokens).args[i] == args[i],
{
    let mid = run_first(args, tokens, n as nat);
    walk_around(args, tokens, n, i);
    later_keeps_names(args, mid.args);
    long_step_picks(mid.args, i, after(tokens, n));
}

/// Where the short token of an option is followed by a token without a dash,
/// and no other token speaks of the option, the option has that token as its
/// value after a walk that reaches the end.
pub proof fn short_option_takes_value(args: Seq<ArgModel>, tokens: Seq<Seq<char>>, n: int, i: int)
    requires
        0 <= i < args.len(),
        args[i].kind is Opt,
        args[i].short != 'h',
        args[i].short != 'v',
        args[i].short != '-',
        !word_named(args, short_token(args[i].short)),
        0 <= n < tokens.len() - 1,
        tokens[n] == short_token(args[i].short),
        !dashed(tokens[n + 1]),
        forall|k: int| 0 <= k < tokens.len() && k != n ==> !mentions(#[trigger] tokens[k], args[i]),
        run(args, tokens).exit is None,
    ensures
        run(args, tokens).args[i] == (ArgModel {
            kind: ArgKind::Opt(tokens[n + 1]),
            set: true,
            ..args[i]
        }),
{
    let mid = run_first(args, tokens, n as nat);
    walk_around(args, tokens, n, i);
    later_keeps_names(args, mid.args);
    short_step_picks(mid.args, i, after(tokens, n));
}

/// Where the short token of an option is the last token or is followed by a
/// token with a dash, and no other token speaks of the option, the option
/// keeps its default; and the token with a dash, if the walk gets that far,
/// stops the walk as unexpected.
pub proof fn short_option_without_value(args: Seq<ArgModel>, tokens: Seq<Seq<char>>, n: int, i: int)
    requires
        0 <= i < args.len(),
        args[i].kind is Opt,
        args[i].short != 'h',
        args[i].short != 'v',
        args[i].short != '-',
        !word_named(args, short_token(args[i].short)),
        0 <= n < tokens.len(),
        tokens[n] == short_token(args[i].short),
        n + 1 < tokens.len() ==> dashed(tokens[n + 1]),
        forall|k: int| 0 <= k < tokens.len() && k != n ==> !mentions(#[trigger] tokens[k], args[i]),
    ensures
        run(args, tokens).args[i] == args[i],
        n + 1 < tokens.len() ==> run(args, tokens).exit is Some,
        n + 1 < tokens.len() && run_first(args, tokens, n as nat).exit is None ==> run(
            args,
            tokens,
        ).exit == Some(ExitModel::Unexpected(tokens[n + 1])),
{
    let mid = run_first(args, tokens, n as nat);
    walk_around(args, tokens, n, i);
    later_keeps_names(args, mid.args);
    short_step_picks(mid.args, i, after(tokens, n));
}

/// Where the name of a string word is followed by a token without a dash,
/// and no other token is its name, the word has that token as its value
/// after a walk that reaches the end.
pub proof fn word_takes_value(args: Seq<ArgModel>, tokens: Seq<Seq<char>>, n: int, i: int)
    requires
        0 <= i < args.len(),
        args[i].kind is Word,
        args[i].kind->Word_0 is Text,
        0 <= n < tokens.len() - 1,
        tokens[n] == args[i].name,
        !dashed(tokens[n + 1]),
        forall|k: int| 0 <= k < tokens.len() && k != n ==> #[trigger] tokens[k] != args[i].name,
        run(args, tokens).exit is None,
    ensures
        run(args, tokens).args[i] == (ArgModel {
            kind: ArgKind::Word(WordValue::Text(tokens[n + 1])),
            set: true,
            ..args[i]
        }),
{
    let mid = run_first(args, tokens, n as nat);
    walk_around(args, tokens, n, i);
    word_step_picks(mid.args, i, after(tokens, n));
}

/// `--name` of an option and a token after it leave the option with that
/// token as its value, or with its default where the token has a dash.
pub proof fn long_pair_takes_value(args: Seq<ArgModel>, v: Seq<char>, i: int)
    requires
        0 <= i < args.len(),
        args[i].kind is Opt,
        args[i].name != help_name(),
        args[i].name != version_name(),
        !word_named(args, long_token(args[i].name)),
    ensures
        !dashed(v) ==> run(args, seq![long_token(args[i].name), v]).exit is None,
        run(args, seq![long_token(args[i].name), v]).args[i] == (if dashed(v) {
            args[i]
        } else {
            ArgModel { kind: ArgKind::Opt(v), set: true, ..args[i] }
        }),
{
    let tokens = seq![long_token(args[i].name), v];
    let w = step(args, tokens[0], second(tokens));
    long_step_picks(args, i, Some(v));
    let rest = tokens.drop_first();
    step_keeps_declarations(args, tokens[0], second(tokens));
    last_token_keeps_option(w.args, v, i);
    let x = step(w.args, v, None);
    assert(run(w.args, rest) == (if x.exit is Some {
        x
    } else {
        run(x.args, rest.drop_first())
    }));
}

/// The short token of an option and a token after it leave the option with
/// that token as its value, or with its default where the token has a dash,
/// which then stops the walk as unexpected.
pub proof fn short_pair_takes_value(args: Seq<ArgModel>, v: Seq<char>, i: int)
    requires
        0 <= i < args.len(),
        args[i].kind is Opt,
        args[i].short != 'h',
        args[i].short != 'v',
        args[i].short != '-',
        !word_named(args, short_token(args[i].short)),
    ensures
        !dashed(v) ==> run(args, seq![short_token(args[i].short), v]).exit is None,
        dashed(v) ==> run(args, seq![short_token(args[i].short), v]).exit == Some(
            ExitModel::Unexpected(v),
        ),
        run(args, seq![short_token(args[i].short), v]).args[i] == (if dashed(v) {
            args[i]
        } else {
            ArgModel { kind: ArgKind::Opt(v), set: true, ..args[i] }
        }),
{
    let tokens = seq![short_token(args[i].short), v];
    let w = step(args, tokens[0], second(tokens));
    short_step_picks(args, i, Some(v));
    let rest = tokens.drop_first();
    step_keeps_declarations(args, tokens[0], second(tokens));
    if !dashed(v) {
        last_token_keeps_option(w.args, v, i);
        let x = step(w.args, v, None);
        assert(run(w.args, rest) == (if x.exit is Some {
            x
        } else {
            run(x.args, rest.drop_first())
        }));
    }
}

/// The name of a string word and a token without a dash leave the word with
/// that token as its value.
pub proof fn word_pair_takes_value(args: Seq<ArgModel>, v: Seq<char>, i: int)
    requires
        0 <= i < args.len(),
        args[i].kind is Word,
        args[i].kind->Word_0 is Text,
        !dashed(v),
    ensures
        run(args, seq![args[i].name, v]).exit is None,
        run(args, seq![args[i].name, v]).args[i] == (ArgModel {
            kind: ArgKind::Word(WordValue::Text(v)),
            set: true,
            ..args[i]
        }),
{
    let tokens = seq![args[i].name, v];
    let w = step(args, tokens[0], second(tokens));
    word_step_picks(args, i, Some(v));
    let rest = tokens.drop_first();
    let x = step(w.args, v, None);
    assert(run(x.args, rest.drop_first()) == (Walk { args: x.args, exit: None }));
    step_keeps_declarations(args, tokens[0], second(tokens));
    if v == args[i].name {
        word_step_picks(w.args, i, None);
    } else {
        step_spares(w.args, v, None, i);
    }
    assert(run(args, tokens) == run(w.args, rest));
}

} // verus!

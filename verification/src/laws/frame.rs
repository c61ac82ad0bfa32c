//! What a walk never changes.

use vstd::prelude::*;
use crate::argument::{ArgKind, ArgModel, WordValue};
use crate::registry::{
    option_short, position, position_found, position_none, registered, well_formed, word_named,
};
use crate::walk::{cluster, dashed, long_form, parse, run, second, short_step, step, Walk};

verus! {

/// Two kinds are of the same sort: both flags, both options, both boolean
/// words, both string words, or both undecided.
pub open spec fn same_sort(a: ArgKind, b: ArgKind) -> bool {
    match (a, b) {
        (ArgKind::Unknown, ArgKind::Unknown) => true,
        (ArgKind::Flag(_), ArgKind::Flag(_)) => true,
        (ArgKind::Opt(_), ArgKind::Opt(_)) => true,
        (ArgKind::Word(WordValue::Boolean(_)), ArgKind::Word(WordValue::Boolean(_))) => true,
        (ArgKind::Word(WordValue::Text(_)), ArgKind::Word(WordValue::Text(_))) => true,
        _ => false,
    }
}

/// `b` is the declaration `a` at a later time: nothing but the value and the
/// seen mark may differ, and a mark once set stays set.
pub open spec fn later(a: ArgModel, b: ArgModel) -> bool {
    &&& b.name == a.name
    &&& b.short == a.short
    &&& b.help == a.help
    &&& b.required == a.required
    &&& same_sort(a.kind, b.kind)
    &&& a.set ==> b.set
}

/// `ys` is the registry `xs` at a later time.
pub open spec fn later_all(xs: Seq<ArgModel>, ys: Seq<ArgModel>) -> bool {
    &&& ys.len() == xs.len()
    &&& forall|i: int| 0 <= i < xs.len() ==> later(#[trigger] xs[i], ys[i])
}

/// A character of a short token leaves every declaration in place, with
/// its names, help text, sort and required mark; no seen mark is taken
/// back.
pub proof fn short_step_keeps_declarations(args: Seq<ArgModel>, c: char, next: Option<Seq<char>>)
    ensures
        later_all(args, short_step(args, c, next).args),
{
}

/// A short token leaves every declaration in place.
pub proof fn cluster_keeps_declarations(args: Seq<ArgModel>, cs: Seq<char>, next: Option<Seq<char>>)
    ensures
        later_all(args, cluster(args, cs, next).args),
    decreases cs.len(),
{
    if cs.len() > 0 {
        let w = short_step(args, cs[0], next);
        short_step_keeps_declarations(args, cs[0], next);
        if w.exit is None {
            cluster_keeps_declarations(w.args, cs.drop_first(), next);
        }
    }
}

/// A token leaves every declaration in place.
pub proof fn step_keeps_declarations(args: Seq<ArgModel>, t: Seq<char>, next: Option<Seq<char>>)
    ensures
        later_all(args, step(args, t, next).args),
{
    if !word_named(args, t) && !long_form(t) && dashed(t) {
        cluster_keeps_declarations(args, t.skip(1), next);
    }
}

/// A walk leaves every declaration in place.
pub proof fn run_keeps_declarations(args: Seq<ArgModel>, tokens: Seq<Seq<char>>)
    ensures
        later_all(args, run(args, tokens).args),
    decreases tokens.len(),
{
    if tokens.len() > 0 {
        let w = step(args, tokens[0], second(tokens));
        step_keeps_declarations(args, tokens[0], second(tokens));
        if w.exit is None {
            run_keeps_declarations(w.args, tokens.drop_first());
        }
    }
}

/// A parse leaves every declaration in place, with its names, help text,
/// sort and required mark, and takes no seen mark back; so a well-formed
/// registry stays well formed.
pub proof fn parse_keeps_declarations(
    args: Seq<ArgModel>,
    require_args: bool,
    tokens: Seq<Seq<char>>,
)
    ensures
        later_all(args, parse(args, require_args, tokens).args),
        well_formed(args) ==> well_formed(parse(args, require_args, tokens).args),
{
    run_keeps_declarations(args, tokens);
    later_keeps_form(args, parse(args, require_args, tokens).args);
}

/// A well-formed registry is well formed at any later time.
pub proof fn later_keeps_form(xs: Seq<ArgModel>, ys: Seq<ArgModel>)
    requires
        later_all(xs, ys),
    ensures
        well_formed(xs) ==> well_formed(ys),
{
    if well_formed(xs) {
        assert forall|i: int, j: int| 0 <= i < j < ys.len() implies (#[trigger] ys[i]).name
            != (#[trigger] ys[j]).name by {
            assert(later(xs[i], ys[i]) && later(xs[j], ys[j]));
        }
        assert forall|i: int| 0 <= i < ys.len() implies !((#[trigger] ys[i]).kind is Unknown) by {
            assert(later(xs[i], ys[i]));
        }
    }
}

/// At a later time the same names are registered, as words, and as short
/// names of options.
pub proof fn later_keeps_names(xs: Seq<ArgModel>, ys: Seq<ArgModel>)
    requires
        later_all(xs, ys),
    ensures
        forall|name: Seq<char>| registered(xs, name) == registered(ys, name),
        forall|name: Seq<char>| word_named(xs, name) == word_named(ys, name),
        forall|c: char| option_short(xs, c) == option_short(ys, c),
        forall|name: Seq<char>| position(xs, name) == position(ys, name),
{
    assert forall|name: Seq<char>| registered(xs, name) == registered(ys, name) by {
        if registered(xs, name) {
            let i = choose|i: int| 0 <= i < xs.len() && (#[trigger] xs[i]).name == name;
            assert(later(xs[i], ys[i]));
            assert(ys[i].name == name);
        }
        if registered(ys, name) {
            let i = choose|i: int| 0 <= i < ys.len() && (#[trigger] ys[i]).name == name;
            assert(later(xs[i], ys[i]));
            assert(xs[i].name == name);
        }
    }
    assert forall|name: Seq<char>| word_named(xs, name) == word_named(ys, name) by {
        if word_named(xs, name) {
            let i = choose|i: int|
                0 <= i < xs.len() && (#[trigger] xs[i]).name == name && xs[i].kind is Word;
            assert(later(xs[i], ys[i]));
            assert(ys[i].name == name && ys[i].kind is Word);
        }
        if word_named(ys, name) {
            let i = choose|i: int|
                0 <= i < ys.len() && (#[trigger] ys[i]).name == name && ys[i].kind is Word;
            assert(later(xs[i], ys[i]));
            assert(xs[i].name == name && xs[i].kind is Word);
        }
    }
    assert forall|c: char| option_short(xs, c) == option_short(ys, c) by {
        if option_short(xs, c) {
            let i = choose|i: int|
                0 <= i < xs.len() && (#[trigger] xs[i]).short == c && xs[i].kind is Opt;
            assert(later(xs[i], ys[i]));
            assert(ys[i].short == c && ys[i].kind is Opt);
        }
        if option_short(ys, c) {
            let i = choose|i: int|
                0 <= i < ys.len() && (#[trigger] ys[i]).short == c && ys[i].kind is Opt;
            assert(later(xs[i], ys[i]));
            assert(xs[i].short == c && xs[i].kind is Opt);
        }
    }
    assert forall|name: Seq<char>| position(xs, name) == position(ys, name) by {
        position_none(xs, name);
        position_none(ys, name);
        if position(xs, name) is Some {
            let i = position(xs, name)->0;
            assert(later(xs[i], ys[i]));
            assert forall|j: int| 0 <= j < i implies (#[trigger] ys[j]).name != name by {
                assert(later(xs[j], ys[j]));
            }
            position_found(ys, name, i);
        }
    }
}

/// A short token stops a walk only for help, for the version, or on an
/// unexpected token.
pub proof fn cluster_stops_for(args: Seq<ArgModel>, cs: Seq<char>, next: Option<Seq<char>>)
    ensures
        cluster(args, cs, next).exit matches Some(e) ==> e is Help || e is Version
            || e is Unexpected,
    decreases cs.len(),
{
    if cs.len() > 0 {
        let w = short_step(args, cs[0], next);
        if w.exit is None {
            cluster_stops_for(w.args, cs.drop_first(), next);
        }
    }
}

/// A walk stops only for help, for the version, or on an unexpected
/// token.
pub proof fn run_stops_for(args: Seq<ArgModel>, tokens: Seq<Seq<char>>)
    ensures
        run(args, tokens).exit matches Some(e) ==> e is Help || e is Version || e is Unexpected,
    decreases tokens.len(),
{
    if tokens.len() > 0 {
        let t = tokens[0];
        let w = step(args, t, second(tokens));
        if !word_named(args, t) && !long_form(t) && dashed(t) {
            cluster_stops_for(args, t.skip(1), second(tokens));
        }
        if w.exit is None {
            run_stops_for(w.args, tokens.drop_first());
        }
    }
}

/// A parse is the walk between two checks: where there are tokens, or
/// none are required, the registry after the parse is the registry after
/// the walk, and the parse stops as the walk stops; a walk that reaches the
/// end fails only for a missing argument.
pub proof fn parse_is_walk(args: Seq<ArgModel>, require_args: bool, tokens: Seq<Seq<char>>)
    ensures
        tokens.len() > 0 || !require_args ==> parse(args, require_args, tokens).args == run(
            args,
            tokens,
        ).args,
        (tokens.len() > 0 || !require_args) && run(args, tokens).exit is Some ==> parse(
            args,
            require_args,
            tokens,
        ).exit == run(args, tokens).exit,
        parse(args, require_args, tokens).exit is None ==> run(args, tokens).exit is None,
        parse(args, require_args, tokens).exit is Some && parse(
            args,
            require_args,
            tokens,
        ).exit->0 is Missing ==> run(args, tokens).exit is None,
{
    run_stops_for(args, tokens);
}

/// The walk over the first `n` tokens, each with the token after it.
pub open spec fn run_first(args: Seq<ArgModel>, tokens: Seq<Seq<char>>, n: nat) -> Walk
    decreases n,
{
    if n == 0 || tokens.len() == 0 {
        Walk { args, exit: None }
    } else {
        let w = step(args, tokens[0], second(tokens));
        if w.exit is Some {
            w
        } else {
            run_first(w.args, tokens.drop_first(), (n - 1) as nat)
        }
    }
}

/// A walk is the walk over its first `n` tokens, followed, where that did
/// not stop, by the walk over the others.
pub proof fn run_splits(args: Seq<ArgModel>, tokens: Seq<Seq<char>>, n: nat)
    requires
        n <= tokens.len(),
    ensures
        later_all(args, run_first(args, tokens, n).args),
        run(args, tokens) == (if run_first(args, tokens, n).exit is Some {
            run_first(args, tokens, n)
        } else {
            run(run_first(args, tokens, n).args, tokens.skip(n as int))
        }),
    decreases n,
{
    if n == 0 || tokens.len() == 0 {
        assert(tokens.skip(0) =~= tokens);
    } else {
        let w = step(args, tokens[0], second(tokens));
        step_keeps_declarations(args, tokens[0], second(tokens));
        if w.exit is None {
            run_splits(w.args, tokens.drop_first(), (n - 1) as nat);
            assert(tokens.drop_first().skip(n - 1) =~= tokens.skip(n as int));
        }
    }
}

} // verus!

//! Declarations of which no token speaks keep their defaults.

use vstd::prelude::*;
use crate::argument::ArgModel;
use crate::laws::frame::{
    later, later_all, later_keeps_names, parse_keeps_declarations, run_first, run_splits,
    short_step_keeps_declarations, step_keeps_declarations,
};
use crate::registry::{
    flag_of, lookup, option_of, position, position_found, well_formed, word_named, word_of,
};
use crate::walk::{cluster, dashed, long_form, parse, run, second, short_step, step};

verus! {

/// The token speaks of the declaration: of a word, where it is its name;
/// of a flag or an option, where it is the long name after two dashes or a
/// short token that holds the short name.
pub open spec fn mentions(t: Seq<char>, a: ArgModel) -> bool {
    if a.kind is Word {
        t == a.name
    } else {
        ||| long_form(t) && t.skip(2) == a.name
        ||| dashed(t) && !long_form(t) && t.skip(1).contains(a.short)
    }
}

/// No token speaks of the declaration.
pub open spec fn unmentioned(tokens: Seq<Seq<char>>, a: ArgModel) -> bool {
    forall|k: int| 0 <= k < tokens.len() ==> !mentions(#[trigger] tokens[k], a)
}

/// A short token leaves a word as it is, and a declaration whose short
/// name it does not hold.
pub proof fn cluster_spares(args: Seq<ArgModel>, cs: Seq<char>, next: Option<Seq<char>>, i: int)
    requires
        0 <= i < args.len(),
        args[i].kind is Word || !cs.contains(args[i].short),
    ensures
        cluster(args, cs, next).args[i] == args[i],
    decreases cs.len(),
{
    if cs.len() > 0 {
        let w = short_step(args, cs[0], next);
        assert(args[i].kind is Word || cs[0] != args[i].short);
        short_step_keeps_declarations(args, cs[0], next);
        if w.exit is None {
            let rest = cs.drop_first();
            assert forall|k: int| 0 <= k < rest.len() && !(args[i].kind is Word) implies rest[k]
                != args[i].short by {
                assert(rest[k] == cs[k + 1]);
            }
            cluster_spares(w.args, rest, next, i);
        }
    }
}

/// A token that does not speak of a declaration leaves it as it is.
pub proof fn step_spares(args: Seq<ArgModel>, t: Seq<char>, next: Option<Seq<char>>, i: int)
    requires
        0 <= i < args.len(),
        !mentions(t, args[i]),
    ensures
        step(args, t, next).args[i] == args[i],
{
    if !word_named(args, t) && !long_form(t) && dashed(t) {
        cluster_spares(args, t.skip(1), next, i);
    }
}

/// Tokens of which none speaks of a declaration leave it as it is.
pub proof fn run_spares(args: Seq<ArgModel>, tokens: Seq<Seq<char>>, i: int)
    requires
        0 <= i < args.len(),
        unmentioned(tokens, args[i]),
    ensures
        run(args, tokens).args[i] == args[i],
    decreases tokens.len(),
{
    if tokens.len() > 0 {
        let w = step(args, tokens[0], second(tokens));
        step_spares(args, tokens[0], second(tokens), i);
        step_keeps_declarations(args, tokens[0], second(tokens));
        if w.exit is None {
            let rest = tokens.drop_first();
            assert forall|k: int| 0 <= k < rest.len() implies !mentions(
                #[trigger] rest[k],
                w.args[i],
            ) by {
                assert(rest[k] == tokens[k + 1]);
            }
            run_spares(w.args, rest, i);
        }
    }
}

/// First tokens of which none speaks of a declaration leave it as it is.
pub proof fn run_first_spares(args: Seq<ArgModel>, tokens: Seq<Seq<char>>, n: nat, i: int)
    requires
        n <= tokens.len(),
        0 <= i < args.len(),
        forall|k: int| 0 <= k < n ==> !mentions(#[trigger] tokens[k], args[i]),
    ensures
        run_first(args, tokens, n).args[i] == args[i],
    decreases n,
{
    if n > 0 && tokens.len() > 0 {
        let w = step(args, tokens[0], second(tokens));
        step_spares(args, tokens[0], second(tokens), i);
        step_keeps_declarations(args, tokens[0], second(tokens));
        if w.exit is None {
            let rest = tokens.drop_first();
            assert forall|k: int| 0 <= k < n - 1 implies !mentions(
                #[trigger] rest[k],
                w.args[i],
            ) by {
                assert(rest[k] == tokens[k + 1]);
            }
            run_first_spares(w.args, rest, (n - 1) as nat, i);
        }
    }
}

/// In a well-formed registry a declaration stands at the position of its
/// name.
pub proof fn unique_position(args: Seq<ArgModel>, i: int)
    requires
        well_formed(args),
        0 <= i < args.len(),
    ensures
        position(args, args[i].name) == Some(i),
        lookup(args, args[i].name) == Some(args[i]),
{
    assert forall|j: int| 0 <= j < i implies (#[trigger] args[j]).name != args[i].name by {}
    position_found(args, args[i].name, i);
}

/// A declaration of which no token speaks is after the parse what it was
/// before, so a lookup by its name gives the default it was registered with.
pub proof fn unmentioned_keeps_default(
    args: Seq<ArgModel>,
    require_args: bool,
    tokens: Seq<Seq<char>>,
    i: int,
)
    requires
        well_formed(args),
        0 <= i < args.len(),
        unmentioned(tokens, args[i]),
    ensures
        parse(args, require_args, tokens).args[i] == args[i],
        lookup(parse(args, require_args, tokens).args, args[i].name) == Some(args[i]),
        flag_of(parse(args, require_args, tokens).args, args[i].name) == flag_of(
            args,
            args[i].name,
        ),
        option_of(parse(args, require_args, tokens).args, args[i].name) == option_of(
            args,
            args[i].name,
        ),
        word_of(parse(args, require_args, tokens).args, args[i].name) == word_of(
            args,
            args[i].name,
        ),
{
    let after = parse(args, require_args, tokens).args;
    run_spares(args, tokens, i);
    parse_keeps_declarations(args, require_args, tokens);
    later_keeps_names(args, after);
    unique_position(args, i);
}

/// The token after place `n`, if there is one.
pub open spec fn after(tokens: Seq<Seq<char>>, n: int) -> Option<Seq<char>> {
    if n + 1 < tokens.len() {
        Some(tokens[n + 1])
    } else {
        None
    }
}

/// Where only the token at place `n` speaks of a declaration, the walk
/// makes of the declaration what that one token makes of it, unless the
/// walk stops before.
pub proof fn walk_around(args: Seq<ArgModel>, tokens: Seq<Seq<char>>, n: int, i: int)
    requires
        0 <= n < tokens.len(),
        0 <= i < args.len(),
        forall|k: int| 0 <= k < tokens.len() && k != n ==> !mentions(#[trigger] tokens[k], args[i]),
    ensures
        ({
            let mid = run_first(args, tokens, n as nat);
            let w = step(mid.args, tokens[n], after(tokens, n));
            &&& later_all(args, mid.args)
            &&& mid.args[i] == args[i]
            &&& mid.exit is Some ==> run(args, tokens) == mid
            &&& mid.exit is None && w.exit is Some ==> run(args, tokens) == w
            &&& mid.exit is None && w.exit is None ==> run(args, tokens).args[i] == w.args[i]
        }),
{
    let mid = run_first(args, tokens, n as nat);
    run_splits(args, tokens, n as nat);
    run_first_spares(args, tokens, n as nat, i);
    if mid.exit is None {
        let rest = tokens.skip(n);
        assert(rest[0] == tokens[n]);
        assert(second(rest) == after(tokens, n));
        let w = step(mid.args, tokens[n], after(tokens, n));
        step_keeps_declarations(mid.args, tokens[n], after(tokens, n));
        if w.exit is None {
            let last = rest.drop_first();
            assert(later(mid.args[i], w.args[i]));
            assert forall|k: int| 0 <= k < last.len() implies !mentions(
                #[trigger] last[k],
                w.args[i],
            ) by {
                assert(last[k] == tokens[n + 1 + k]);
            }
            run_spares(w.args, last, i);
        }
    }
}

} // verus!

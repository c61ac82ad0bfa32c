//! Flags and boolean words toggle once for each time they are named.

use vstd::prelude::*;
use crate::argument::{ArgKind, ArgModel, WordValue};
use crate::laws::defaults::step_spares;
use crate::laws::frame::{
    cluster_keeps_declarations, later_all, later_keeps_names, run_keeps_declarations,
    short_step_keeps_declarations, step_keeps_declarations,
};
use crate::registry::word_named;
use crate::walk::{cluster, dashed, long_form, run, second, short_step, step};

verus! {

/// How often the character occurs.
pub open spec fn count_of(cs: Seq<char>, c: char) -> nat
    decreases cs.len(),
{
    if cs.len() == 0 {
        0
    } else if cs[0] == c {
        1 + count_of(cs.drop_first(), c)
    } else {
        count_of(cs.drop_first(), c)
    }
}

/// How often the token names the flag `a`: once as `--name`, and once for
/// each occurrence of the short name in a short token. The name of a word
/// names no flag.
pub open spec fn flag_hits_in(args: Seq<ArgModel>, t: Seq<char>, a: ArgModel) -> nat {
    if word_named(args, t) {
        0
    } else if long_form(t) {
        if t.skip(2) == a.name {
            1
        } else {
            0
        }
    } else if dashed(t) {
        count_of(t.skip(1), a.short)
    } else {
        0
    }
}

/// How often the tokens name the flag `a`.
pub open spec fn flag_hits(args: Seq<ArgModel>, tokens: Seq<Seq<char>>, a: ArgModel) -> nat
    decreases tokens.len(),
{
    if tokens.len() == 0 {
        0
    } else {
        flag_hits_in(args, tokens[0], a) + flag_hits(args, tokens.drop_first(), a)
    }
}

/// How often the name occurs as a token.
pub open spec fn occurrences(tokens: Seq<Seq<char>>, name: Seq<char>) -> nat
    decreases tokens.len(),
{
    if tokens.len() == 0 {
        0
    } else if tokens[0] == name {
        1 + occurrences(tokens.drop_first(), name)
    } else {
        occurrences(tokens.drop_first(), name)
    }
}

/// The boolean after `k` toggles.
pub open spec fn toggled(d: bool, k: nat) -> bool {
    d != (k % 2 == 1)
}

/// A short token that does not stop the walk toggles a flag once for each
/// occurrence of its short name.
pub proof fn cluster_toggles(
    args: Seq<ArgModel>,
    cs: Seq<char>,
    next: Option<Seq<char>>,
    i: int,
    d: bool,
)
    requires
        0 <= i < args.len(),
        args[i].kind == ArgKind::Flag(d),
        cluster(args, cs, next).exit is None,
    ensures
        cluster(args, cs, next).args[i].kind == ArgKind::Flag(
            toggled(d, count_of(cs, args[i].short)),
        ),
        count_of(cs, args[i].short) > 0 ==> cluster(args, cs, next).args[i].set,
    decreases cs.len(),
{
    if cs.len() > 0 {
        let w = short_step(args, cs[0], next);
        short_step_keeps_declarations(args, cs[0], next);
        let d1 = if cs[0] == args[i].short {
            !d
        } else {
            d
        };
        cluster_toggles(w.args, cs.drop_first(), next, i, d1);
        cluster_keeps_declarations(w.args, cs.drop_first(), next);
    }
}

/// The count of hits does not change with the time at which the registry
/// is looked at.
proof fn same_hits(xs: Seq<ArgModel>, ys: Seq<ArgModel>, tokens: Seq<Seq<char>>, i: int)
    requires
        later_all(xs, ys),
        0 <= i < xs.len(),
    ensures
        flag_hits(xs, tokens, xs[i]) == flag_hits(ys, tokens, ys[i]),
    decreases tokens.len(),
{
    later_keeps_names(xs, ys);
    if tokens.len() > 0 {
        same_hits(xs, ys, tokens.drop_first(), i);
    }
}

/// After a walk that reaches the end, a flag is its default toggled once for
/// each time the tokens named it: seen once it is the opposite of the
/// default, seen twice the default again.
pub proof fn flag_toggles(args: Seq<ArgModel>, tokens: Seq<Seq<char>>, i: int, d: bool)
    requires
        0 <= i < args.len(),
        args[i].kind == ArgKind::Flag(d),
        run(args, tokens).exit is None,
    ensures
        run(args, tokens).args[i].kind == ArgKind::Flag(
            toggled(d, flag_hits(args, tokens, args[i])),
        ),
        flag_hits(args, tokens, args[i]) > 0 ==> run(args, tokens).args[i].set,
    decreases tokens.len(),
{
    if tokens.len() > 0 {
        let t = tokens[0];
        let next = second(tokens);
        let w = step(args, t, next);
        let rest = tokens.drop_first();
        step_keeps_declarations(args, t, next);
        later_keeps_names(args, w.args);
        let k = flag_hits_in(args, t, args[i]);
        if !word_named(args, t) && !long_form(t) && dashed(t) {
            cluster_toggles(args, t.skip(1), next, i, d);
        }
        let d1 = toggled(d, k);
        flag_toggles(w.args, rest, i, d1);
        same_hits(args, w.args, rest, i);
        run_keeps_declarations(w.args, rest);
    }
}

/// After a walk that reaches the end, a boolean word is its default toggled
/// once for each token that is its name: present once, it is the opposite of
/// the default.
pub proof fn word_toggles(args: Seq<ArgModel>, tokens: Seq<Seq<char>>, i: int, d: bool)
    requires
        0 <= i < args.len(),
        args[i].kind == ArgKind::Word(WordValue::Boolean(d)),
        run(args, tokens).exit is None,
    ensures
        run(args, tokens).args[i].kind == ArgKind::Word(
            WordValue::Boolean(toggled(d, occurrences(tokens, args[i].name))),
        ),
        occurrences(tokens, args[i].name) > 0 ==> run(args, tokens).args[i].set,
    decreases tokens.len(),
{
    if tokens.len() > 0 {
        let t = tokens[0];
        let next = second(tokens);
        let w = step(args, t, next);
        let rest = tokens.drop_first();
        step_keeps_declarations(args, t, next);
        let d1 = if t == args[i].name {
            !d
        } else {
            d
        };
        if t != args[i].name {
            step_spares(args, t, next, i);
        }
        word_toggles(w.args, rest, i, d1);
        run_keeps_declarations(w.args, rest);
    }
}

} // verus!

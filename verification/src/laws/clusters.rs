//! Short names in one token and in a token each.

use vstd::prelude::*;
use crate::argument::ArgModel;
use crate::laws::frame::{
    later_keeps_names, short_step_keeps_declarations, step_keeps_declarations,
};
use crate::laws::pickup::short_token;
use crate::registry::{option_short, word_named};
use crate::walk::{
    cluster, dashed, long_form, on_short, run, second, short_step, step, ExitModel, Walk,
};

verus! {

/// The short token of several short names: a dash and the characters.
pub open spec fn cluster_token(cs: Seq<char>) -> Seq<char> {
    seq!['-'] + cs
}

/// One short token for each character, in order.
pub open spec fn split(cs: Seq<char>) -> Seq<Seq<char>> {
    Seq::new(cs.len(), |k: int| short_token(cs[k]))
}

/// The characters name flags at most: none is a dash or the short name of
/// an option, and no word is named like the short token of one.
pub open spec fn flags_only(args: Seq<ArgModel>, cs: Seq<char>) -> bool {
    forall|k: int|
        0 <= k < cs.len() ==> {
            &&& #[trigger] cs[k] != '-'
            &&& !option_short(args, cs[k])
            &&& !word_named(args, short_token(cs[k]))
        }
}

/// Where no character is the short name of an option, a short token does
/// the same whatever token comes after it.
pub proof fn cluster_ignores_next(
    args: Seq<ArgModel>,
    cs: Seq<char>,
    n1: Option<Seq<char>>,
    n2: Option<Seq<char>>,
)
    requires
        forall|k: int| 0 <= k < cs.len() ==> !option_short(args, #[trigger] cs[k]),
    ensures
        cluster(args, cs, n1) == cluster(args, cs, n2),
    decreases cs.len(),
{
    if cs.len() > 0 {
        let c = cs[0];
        let w = short_step(args, c, n1);
        assert(on_short(args, c, n1) =~= on_short(args, c, n2));
        if w.exit is None {
            let rest = cs.drop_first();
            short_step_keeps_declarations(args, c, n1);
            later_keeps_names(args, w.args);
            assert forall|k: int| 0 <= k < rest.len() implies !option_short(
                w.args,
                #[trigger] rest[k],
            ) by {}
            cluster_ignores_next(w.args, rest, n1, n2);
        }
    }
}

/// A walk over one short token for each character does what the
/// characters do as one short token, and goes on from there.
proof fn split_runs_as_cluster(args: Seq<ArgModel>, cs: Seq<char>, post: Seq<Seq<char>>)
    requires
        flags_only(args, cs),
    ensures
        run(args, split(cs) + post) == (if cluster(args, cs, None).exit is Some {
            cluster(args, cs, None)
        } else {
            run(cluster(args, cs, None).args, post)
        }),
    decreases cs.len(),
{
    let tokens = split(cs) + post;
    if cs.len() > 0 {
        let c = cs[0];
        let t = short_token(c);
        let next = second(tokens);
        let one = t.skip(1);
        let w = short_step(args, c, None);
        assert(cluster(w.args, one.drop_first(), None) == (Walk { args: w.args, exit: None }));
        assert forall|k: int| 0 <= k < one.len() implies !option_short(
            args,
            #[trigger] one[k],
        ) by {}
        cluster_ignores_next(args, one, next, None);
        let rest = cs.drop_first();
        assert(tokens.drop_first() =~= split(rest) + post);
        if w.exit is None {
            short_step_keeps_declarations(args, c, None);
            later_keeps_names(args, w.args);
            assert forall|k: int| 0 <= k < rest.len() implies {
                &&& #[trigger] rest[k] != '-'
                &&& !option_short(w.args, rest[k])
                &&& !word_named(w.args, short_token(rest[k]))
            } by {}
            split_runs_as_cluster(w.args, rest, post);
        }
    }
}

/// Where the characters name flags at most, one short token of all of them
/// and one short token for each of them do the same: the walk over the rest
/// of the command line goes on from the same registry, or stops for the same
/// reason.
pub proof fn cluster_splits(args: Seq<ArgModel>, cs: Seq<char>, post: Seq<Seq<char>>)
    requires
        cs.len() > 0,
        flags_only(args, cs),
        !word_named(args, cluster_token(cs)),
    ensures
        run(args, seq![cluster_token(cs)] + post) == run(args, split(cs) + post),
{
    let t = cluster_token(cs);
    let tokens = seq![t] + post;
    assert(t.skip(1) =~= cs);
    assert forall|k: int| 0 <= k < cs.len() implies !option_short(args, #[trigger] cs[k]) by {}
    cluster_ignores_next(args, cs, second(tokens), None);
    assert(tokens.drop_first() =~= post);
    split_runs_as_cluster(args, cs, post);
}

/// A step does the same to the registry whichever token with a dash comes
/// after it, and stops in both cases or in neither; where it stops on the
/// token after it, it names the one that is there.
pub proof fn step_between_dashes(args: Seq<ArgModel>, t: Seq<char>, d1: Seq<char>, d2: Seq<char>)
    requires
        dashed(d1),
        dashed(d2),
    ensures
        step(args, t, Some(d1)).args == step(args, t, Some(d2)).args,
        step(args, t, Some(d1)).exit == step(args, t, Some(d2)).exit || (step(
            args,
            t,
            Some(d1),
        ).exit == Some(ExitModel::Unexpected(d1)) && step(args, t, Some(d2)).exit == Some(
            ExitModel::Unexpected(d2),
        )),
{
    if !word_named(args, t) && !long_form(t) && dashed(t) {
        cluster_between_dashes(args, t.skip(1), d1, d2);
    }
}

/// A short token does the same to the registry whichever token with a dash
/// comes after it.
proof fn cluster_between_dashes(args: Seq<ArgModel>, cs: Seq<char>, d1: Seq<char>, d2: Seq<char>)
    requires
        dashed(d1),
        dashed(d2),
    ensures
        cluster(args, cs, Some(d1)).args == cluster(args, cs, Some(d2)).args,
        cluster(args, cs, Some(d1)).exit == cluster(args, cs, Some(d2)).exit || (cluster(
            args,
            cs,
            Some(d1),
        ).exit == Some(ExitModel::Unexpected(d1)) && cluster(args, cs, Some(d2)).exit == Some(
            ExitModel::Unexpected(d2),
        )),
    decreases cs.len(),
{
    if cs.len() > 0 {
        let w = short_step(args, cs[0], Some(d1));
        assert(on_short(args, cs[0], Some(d1)) =~= on_short(args, cs[0], Some(d2)));
        if w.exit is None {
            cluster_between_dashes(w.args, cs.drop_first(), d1, d2);
        }
    }
}

/// Where the characters name flags at most, the registry after the walk is
/// the same whether they stand as one short token or as one short token
/// each, and the walk stops in both cases or in neither.
pub proof fn cluster_splits_anywhere(
    args: Seq<ArgModel>,
    pre: Seq<Seq<char>>,
    cs: Seq<char>,
    post: Seq<Seq<char>>,
)
    requires
        cs.len() > 0,
        flags_only(args, cs),
        !word_named(args, cluster_token(cs)),
    ensures
        run(args, pre + seq![cluster_token(cs)] + post).args == run(
            args,
            pre + split(cs) + post,
        ).args,
        run(args, pre + seq![cluster_token(cs)] + post).exit is Some <==> run(
            args,
            pre + split(cs) + post,
        ).exit is Some,
    decreases pre.len(),
{
    let one = pre + seq![cluster_token(cs)] + post;
    let many = pre + split(cs) + post;
    if pre.len() == 0 {
        cluster_splits(args, cs, post);
    } else {
        let p = pre[0];
        let rest = pre.drop_first();
        assert(one.drop_first() =~= rest + seq![cluster_token(cs)] + post);
        assert(many.drop_first() =~= rest + split(cs) + post);
        let w1 = step(args, p, second(one));
        if rest.len() == 0 {
            step_between_dashes(args, p, cluster_token(cs), short_token(cs[0]));
        }
        if w1.exit is None {
            step_keeps_declarations(args, p, second(one));
            later_keeps_names(args, w1.args);
            cluster_splits_anywhere(w1.args, rest, cs, post);
        }
    }
}

} // verus!

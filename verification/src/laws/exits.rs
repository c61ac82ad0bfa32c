//! Reasons for which a parse stops, and what the program then writes.

use vstd::prelude::*;
use crate::argument::ArgModel;
use crate::exit::exit_status;
use crate::help::{missing_line, report_of, unexpected_line, ReportModel};
use crate::laws::defaults::{run_spares, unmentioned};
use crate::laws::pickup::long_token;
use crate::laws::frame::{later, later_keeps_names, run_first, run_keeps_declarations, run_splits};
use crate::registry::{registered, word_named};
use crate::walk::{
    cluster, dashed, help_name, lacking, long_form, missing, on_long, on_short, on_word,
    parse, run, second, short_step, step, version_name, ExitModel, Form, Walk,
};

verus! {

/// The name that `missing` gives is that of the first declaration that is
/// required and was not seen; it gives none where there is no such
/// declaration.
pub proof fn missing_is_first_lacking(args: Seq<ArgModel>)
    ensures
        match missing(args) {
            Some(name) => exists|k: int|
                {
                    &&& 0 <= k < args.len()
                    &&& lacking(#[trigger] args[k])
                    &&& args[k].name == name
                    &&& forall|j: int| 0 <= j < k ==> !lacking(#[trigger] args[j])
                },
            None => forall|k: int| 0 <= k < args.len() ==> !lacking(#[trigger] args[k]),
        },
    decreases args.len(),
{
    if args.len() > 0 {
        let rest = args.drop_first();
        missing_is_first_lacking(rest);
        if lacking(args[0]) {
            assert(lacking(args[0]) && args[0].name == missing(args)->0);
        } else {
            match missing(rest) {
                Some(name) => {
                    let k = choose|k: int|
                        {
                            &&& 0 <= k < rest.len()
                            &&& lacking(#[trigger] rest[k])
                            &&& rest[k].name == name
                            &&& forall|j: int| 0 <= j < k ==> !lacking(#[trigger] rest[j])
                        };
                    assert(rest[k] == args[k + 1]);
                    assert forall|j: int| 0 <= j < k + 1 implies !lacking(#[trigger] args[j]) by {
                        if j > 0 {
                            assert(rest[j - 1] == args[j]);
                        }
                    }
                    assert(lacking(args[k + 1]) && args[k + 1].name == name);
                },
                None => {
                    assert forall|k: int| 0 <= k < args.len() implies !lacking(
                        #[trigger] args[k],
                    ) by {
                        if k > 0 {
                            assert(rest[k - 1] == args[k]);
                        }
                    }
                },
            }
        }
    }
}

/// Where a declaration is required, was not seen before and no token speaks
/// of it, a parse whose walk reaches the end fails as missing an argument:
/// this one, unless a declaration registered before it is missing too. The
/// program then leaves with status 1.
pub proof fn required_missing_is_reported(
    args: Seq<ArgModel>,
    require_args: bool,
    tokens: Seq<Seq<char>>,
    i: int,
)
    requires
        0 <= i < args.len(),
        lacking(args[i]),
        unmentioned(tokens, args[i]),
        tokens.len() > 0 || !require_args,
        run(args, tokens).exit is None,
    ensures
        parse(args, require_args, tokens).exit is Some,
        parse(args, require_args, tokens).exit->0 is Missing,
        registered(args, parse(args, require_args, tokens).exit->0->Missing_0),
        exit_status(parse(args, require_args, tokens).exit->0) == 1,
        (forall|j: int| 0 <= j < i ==> !(#[trigger] args[j]).required) ==> parse(
            args,
            require_args,
            tokens,
        ).exit == Some(ExitModel::Missing(args[i].name)),
{
    let after = run(args, tokens).args;
    run_spares(args, tokens, i);
    run_keeps_declarations(args, tokens);
    later_keeps_names(args, after);
    missing_is_first_lacking(after);
    assert(lacking(after[i]));
    let name = missing(after)->0;
    let k = choose|k: int|
        {
            &&& 0 <= k < after.len()
            &&& lacking(#[trigger] after[k])
            &&& after[k].name == name
            &&& forall|j: int| 0 <= j < k ==> !lacking(#[trigger] after[j])
        };
    assert(later(args[k], after[k]));
    assert(args[k].name == name);
    if forall|j: int| 0 <= j < i ==> !(#[trigger] args[j]).required {
        if k < i {
            assert(!args[k].required);
        }
        if i < k {
            assert(!lacking(after[i]));
        }
    }
}

/// A step whose next token has a dash either does what it does with no
/// next token, or stops the walk on that next token.
pub proof fn step_before_dash(args: Seq<ArgModel>, t: Seq<char>, d: Seq<char>)
    requires
        dashed(d),
        step(args, t, None).exit is None,
    ensures
        step(args, t, Some(d)) == step(args, t, None) || step(args, t, Some(d)).exit == Some(
            ExitModel::Unexpected(d),
        ),
{
    if word_named(args, t) {
        assert(on_word(args, t, Some(d)) =~= on_word(args, t, None));
    } else if long_form(t) {
        assert(on_long(args, t.skip(2), Some(d)) =~= on_long(args, t.skip(2), None));
    } else if dashed(t) {
        cluster_before_dash(args, t.skip(1), d);
    }
}

/// A short token whose next token has a dash either does what it does with
/// no next token, or stops the walk on that next token.
proof fn cluster_before_dash(args: Seq<ArgModel>, cs: Seq<char>, d: Seq<char>)
    requires
        dashed(d),
        cluster(args, cs, None).exit is None,
    ensures
        cluster(args, cs, Some(d)) == cluster(args, cs, None) || cluster(args, cs, Some(d)).exit
            == Some(ExitModel::Unexpected(d)),
    decreases cs.len(),
{
    if cs.len() > 0 {
        let w = short_step(args, cs[0], None);
        let x = short_step(args, cs[0], Some(d));
        if x.exit is None {
            assert(on_short(args, cs[0], Some(d)) =~= on_short(args, cs[0], None));
            cluster_before_dash(w.args, cs.drop_first(), d);
        }
    }
}

/// Where the tokens before place `n` do not stop a walk on their own, and
/// the token at place `n` has a dash, the walk reaches place `n` as it
/// would have gone over those tokens alone, or it stops before on the token
/// at place `n`.
pub proof fn walk_before_dash(args: Seq<ArgModel>, tokens: Seq<Seq<char>>, n: nat)
    requires
        n < tokens.len(),
        dashed(tokens[n as int]),
        run(args, tokens.take(n as int)).exit is None,
    ensures
        run_first(args, tokens, n) == run(args, tokens.take(n as int)) || run_first(
            args,
            tokens,
            n,
        ).exit == Some(ExitModel::Unexpected(tokens[n as int])),
    decreases n,
{
    let pre = tokens.take(n as int);
    if n > 0 {
        let w = step(args, pre[0], second(pre));
        let x = step(args, tokens[0], second(tokens));
        assert(pre[0] == tokens[0]);
        if n == 1 {
            assert(second(pre) is None);
            assert(second(tokens) == Some(tokens[1]));
            step_before_dash(args, tokens[0], tokens[1]);
            assert(pre.drop_first() =~= Seq::<Seq<char>>::empty());
        } else {
            assert(second(pre) == second(tokens));
        }
        if x.exit is None {
            assert(x == w);
            assert(pre.drop_first() =~= tokens.drop_first().take(n - 1));
            walk_before_dash(w.args, tokens.drop_first(), (n - 1) as nat);
        }
    }
}

/// A token of two dashes and a name that is not registered, before which the
/// walk does not stop, stops the walk as unexpected; the program then leaves
/// with status 1.
pub proof fn unknown_long_is_unexpected(
    args: Seq<ArgModel>,
    require_args: bool,
    tokens: Seq<Seq<char>>,
    n: int,
)
    requires
        0 <= n < tokens.len(),
        long_form(tokens[n]),
        !word_named(args, tokens[n]),
        tokens[n].skip(2) != help_name(),
        tokens[n].skip(2) != version_name(),
        !registered(args, tokens[n].skip(2)),
        run(args, tokens.take(n)).exit is None,
    ensures
        run(args, tokens).exit == Some(ExitModel::Unexpected(tokens[n])),
        parse(args, require_args, tokens).exit == Some(ExitModel::Unexpected(tokens[n])),
        exit_status(ExitModel::Unexpected(tokens[n])) == 1,
{
    let mid = run_first(args, tokens, n as nat);
    walk_before_dash(args, tokens, n as nat);
    run_splits(args, tokens, n as nat);
    if mid.exit is None {
        later_keeps_names(args, mid.args);
        let rest = tokens.skip(n);
        assert(rest[0] == tokens[n]);
    }
}

/// No tokens where some are required: the parse stops at once and changes
/// nothing, and the program leaves with status 1.
pub proof fn empty_input_is_refused(args: Seq<ArgModel>)
    ensures
        parse(args, true, Seq::empty()) == (Walk { args, exit: Some(ExitModel::NoArguments) }),
        exit_status(ExitModel::NoArguments) == 1,
{
}

/// `--help` as the only token stops the parse as a request for help,
/// whatever is registered, unless a word bears that very name; the program
/// leaves with status 0.
pub proof fn long_help_is_a_request(args: Seq<ArgModel>, require_args: bool)
    requires
        !word_named(args, long_token(help_name())),
    ensures
        parse(args, require_args, seq![long_token(help_name())]) == (Walk {
            args,
            exit: Some(ExitModel::Help(Form::Long)),
        }),
        exit_status(ExitModel::Help(Form::Long)) == 0,
{
    let t = long_token(help_name());
    assert(t.skip(2) =~= help_name());
    assert(long_form(t));
}

/// What the program writes for each reason. The help dialog goes to
/// standard output but for a request for the version, which gets the
/// version line; a missing argument is named before the help dialog; an
/// unexpected token is named on standard error.
pub proof fn report_for_each_reason(help: Seq<char>, version: Seq<char>, e: ExitModel)
    ensures
        report_of(help, version, e) == (match e {
            ExitModel::NoArguments => ReportModel { out: help, err: Seq::empty(), status: 1 },
            ExitModel::Help(Form::Long) => ReportModel { out: help, err: Seq::empty(), status: 0 },
            ExitModel::Help(Form::Short) => ReportModel { out: help, err: Seq::empty(), status: 1 },
            ExitModel::Version(Form::Long) => ReportModel {
                out: version,
                err: Seq::empty(),
                status: 0,
            },
            ExitModel::Version(Form::Short) => ReportModel {
                out: version,
                err: Seq::empty(),
                status: 1,
            },
            ExitModel::Unexpected(token) => ReportModel {
                out: help,
                err: unexpected_line(token),
                status: 1,
            },
            ExitModel::Missing(name) => ReportModel {
                out: missing_line(name) + help,
                err: Seq::empty(),
                status: 1,
            },
        }),
{
}

} // verus!

//! What a walk over the tokens does to a registry of declarations.
//!
//! Everything here is mathematics: tokens are sequences of characters, the
//! registry is a sequence of [`ArgModel`] in registration order, and a walk
//! is a function from both to the registry afterwards and, where the walk
//! stops early, the reason.

use vstd::prelude::*;
use crate::argument::{ArgKind, ArgModel, WordValue};
use crate::registry::{option_short, registered, word_named};

verus! {

/// Which spelling asked for help or for the version.
#[derive(Clone, Copy, PartialEq, Eq, Structural, Debug)]
pub enum Form {
    /// `--help`, `--version`.
    Long,
    /// `h` or `v` in a short token.
    Short,
}

/// Why a walk stopped before the end, or failed at the end.
pub enum ExitModel {
    /// No token at all, though the parser requires some.
    NoArguments,
    /// Help was asked for.
    Help(Form),
    /// The version was asked for.
    Version(Form),
    /// The token is not accepted here.
    Unexpected(Seq<char>),
    /// The required argument of this name was not seen.
    Missing(Seq<char>),
}

/// The registry after a walk, and why the walk stopped, if it did.
pub struct Walk {
    /// The registry as the walk left it.
    pub args: Seq<ArgModel>,
    /// Why the walk stopped; nothing where it reached the end.
    pub exit: Option<ExitModel>,
}

/// The long name that asks for help.
pub open spec fn help_name() -> Seq<char> {
    "help"@
}

/// The long name that asks for the version.
pub open spec fn version_name() -> Seq<char> {
    "version"@
}

/// The token begins with a dash.
pub open spec fn dashed(t: Seq<char>) -> bool {
    t.len() > 0 && t[0] == '-'
}

/// The token begins with two dashes.
pub open spec fn long_form(t: Seq<char>) -> bool {
    t.len() >= 2 && t[0] == '-' && t[1] == '-'
}

/// The value that the token after a name supplies: that token, unless it is
/// missing or begins with a dash.
pub open spec fn value_after(next: Option<Seq<char>>) -> Option<Seq<char>> {
    match next {
        Some(v) => if dashed(v) {
            None
        } else {
            Some(v)
        },
        None => None,
    }
}

/// A declaration after its bare name was met: a boolean word toggles, a
/// string word takes the value after it; anything else stays as it is.
pub open spec fn word_touch(a: ArgModel, next: Option<Seq<char>>) -> ArgModel {
    match a.kind {
        ArgKind::Word(WordValue::Boolean(b)) => ArgModel {
            kind: ArgKind::Word(WordValue::Boolean(!b)),
            set: true,
            ..a
        },
        ArgKind::Word(WordValue::Text(_)) => match value_after(next) {
            Some(v) => ArgModel { kind: ArgKind::Word(WordValue::Text(v)), set: true, ..a },
            None => a,
        },
        _ => a,
    }
}

/// A declaration after `--name` or its short name was met: a flag toggles,
/// an option takes the value after it; anything else stays as it is.
pub open spec fn dash_touch(a: ArgModel, next: Option<Seq<char>>) -> ArgModel {
    match a.kind {
        ArgKind::Flag(b) => ArgModel { kind: ArgKind::Flag(!b), set: true, ..a },
        ArgKind::Opt(_) => match value_after(next) {
            Some(v) => ArgModel { kind: ArgKind::Opt(v), set: true, ..a },
            None => a,
        },
        _ => a,
    }
}

/// The registry after the bare token `t` was met.
pub open spec fn on_word(args: Seq<ArgModel>, t: Seq<char>, next: Option<Seq<char>>) -> Seq<
    ArgModel,
> {
    Seq::new(
        args.len(),
        |i: int|
            if args[i].name == t {
                word_touch(args[i], next)
            } else {
                args[i]
            },
    )
}

/// The registry after `--name` was met.
pub open spec fn on_long(args: Seq<ArgModel>, name: Seq<char>, next: Option<Seq<char>>) -> Seq<
    ArgModel,
> {
    Seq::new(
        args.len(),
        |i: int|
            if args[i].name == name {
                dash_touch(args[i], next)
            } else {
                args[i]
            },
    )
}

/// The registry after the short name `c` was met: every declaration with
/// that short name is touched.
pub open spec fn on_short(args: Seq<ArgModel>, c: char, next: Option<Seq<char>>) -> Seq<ArgModel> {
    Seq::new(
        args.len(),
        |i: int|
            if args[i].short == c {
                dash_touch(args[i], next)
            } else {
                args[i]
            },
    )
}

/// One character of a short token. `h` and `v` ask for help and version. An
/// option that is named while the next token begins with a dash stops the
/// walk on that token, and the character changes nothing.
pub open spec fn short_step(args: Seq<ArgModel>, c: char, next: Option<Seq<char>>) -> Walk {
    if c == 'h' {
        Walk { args, exit: Some(ExitModel::Help(Form::Short)) }
    } else if c == 'v' {
        Walk { args, exit: Some(ExitModel::Version(Form::Short)) }
    } else if option_short(args, c) && next is Some && dashed(next->0) {
        Walk { args, exit: Some(ExitModel::Unexpected(next->0)) }
    } else {
        Walk { args: on_short(args, c, next), exit: None }
    }
}

/// The characters of a short token, from left to right, up to the first
/// that stops the walk.
pub open spec fn cluster(args: Seq<ArgModel>, cs: Seq<char>, next: Option<Seq<char>>) -> Walk
    decreases cs.len(),
{
    if cs.len() == 0 {
        Walk { args, exit: None }
    } else {
        let w = short_step(args, cs[0], next);
        if w.exit is Some {
            w
        } else {
            cluster(w.args, cs.drop_first(), next)
        }
    }
}

/// One token, with the token after it, if there is one. The rules apply in
/// this order: the name of a word; a long name; short names; and a token
/// that is none of these is passed over.
pub open spec fn step(args: Seq<ArgModel>, t: Seq<char>, next: Option<Seq<char>>) -> Walk {
    if word_named(args, t) {
        Walk { args: on_word(args, t, next), exit: None }
    } else if long_form(t) {
        let name = t.skip(2);
        if name == help_name() {
            Walk { args, exit: Some(ExitModel::Help(Form::Long)) }
        } else if name == version_name() {
            Walk { args, exit: Some(ExitModel::Version(Form::Long)) }
        } else if registered(args, name) {
            Walk { args: on_long(args, name, next), exit: None }
        } else {
            Walk { args, exit: Some(ExitModel::Unexpected(t)) }
        }
    } else if dashed(t) {
        cluster(args, t.skip(1), next)
    } else {
        Walk { args, exit: None }
    }
}

/// The token after the first, if there is one.
pub open spec fn second(tokens: Seq<Seq<char>>) -> Option<Seq<char>> {
    if tokens.len() > 1 {
        Some(tokens[1])
    } else {
        None
    }
}

/// All tokens, from left to right, up to the first that stops the walk.
pub open spec fn run(args: Seq<ArgModel>, tokens: Seq<Seq<char>>) -> Walk
    decreases tokens.len(),
{
    if tokens.len() == 0 {
        Walk { args, exit: None }
    } else {
        let w = step(args, tokens[0], second(tokens));
        if w.exit is Some {
            w
        } else {
            run(w.args, tokens.drop_first())
        }
    }
}

/// The declaration is required and was not seen.
pub open spec fn lacking(a: ArgModel) -> bool {
    a.required && !a.set
}

/// The name of the first required declaration that was not seen.
pub open spec fn missing(args: Seq<ArgModel>) -> Option<Seq<char>>
    decreases args.len(),
{
    if args.len() == 0 {
        None
    } else if lacking(args[0]) {
        Some(args[0].name)
    } else {
        missing(args.drop_first())
    }
}

/// A whole parse: no tokens where some are required is an error; else the
/// tokens are walked, and a walk that reaches the end fails on the first
/// required declaration that it has not seen.
pub open spec fn parse(args: Seq<ArgModel>, require_args: bool, tokens: Seq<Seq<char>>) -> Walk {
    if tokens.len() == 0 && require_args {
        Walk { args, exit: Some(ExitModel::NoArguments) }
    } else {
        let w = run(args, tokens);
        if w.exit is Some {
            w
        } else {
            match missing(w.args) {
                Some(name) => Walk { args: w.args, exit: Some(ExitModel::Missing(name)) },
                None => w,
            }
        }
    }
}

} // verus!

//! Why a parse did not run to a good end.

use vstd::prelude::*;
use crate::walk::{ExitModel, Form};

verus! {

/// Why a parse stopped early or failed. The parser only reports it; what to
/// print and how to leave is for the program to do.
#[derive(Debug)]
pub enum ParseExit {
    /// No token at all, though the parser requires some.
    NoArguments,
    /// Help was asked for.
    Help(Form),
    /// The version was asked for.
    Version(Form),
    /// The token is not accepted where it stands.
    Unexpected(String),
    /// The required argument of this name was not seen.
    Missing(String),
}

impl View for ParseExit {
    type V = ExitModel;

    open spec fn view(&self) -> ExitModel {
        match self {
            ParseExit::NoArguments => ExitModel::NoArguments,
            ParseExit::Help(f) => ExitModel::Help(*f),
            ParseExit::Version(f) => ExitModel::Version(*f),
            ParseExit::Unexpected(t) => ExitModel::Unexpected(t@),
            ParseExit::Missing(n) => ExitModel::Missing(n@),
        }
    }
}

impl DeepView for ParseExit {
    type V = ExitModel;

    open spec fn deep_view(&self) -> ExitModel {
        self@
    }
}

impl Clone for ParseExit {
    fn clone(&self) -> (r: Self)
        ensures
            r == *self,
    {
        match self {
            ParseExit::NoArguments => ParseExit::NoArguments,
            ParseExit::Help(f) => ParseExit::Help(*f),
            ParseExit::Version(f) => ParseExit::Version(*f),
            ParseExit::Unexpected(t) => ParseExit::Unexpected(t.clone()),
            ParseExit::Missing(n) => ParseExit::Missing(n.clone()),
        }
    }
}

impl PartialEq for ParseExit {
    fn eq(&self, other: &Self) -> (r: bool) {
        match (self, other) {
            (ParseExit::NoArguments, ParseExit::NoArguments) => true,
            (ParseExit::Help(a), ParseExit::Help(b)) => *a == *b,
            (ParseExit::Version(a), ParseExit::Version(b)) => *a == *b,
            (ParseExit::Unexpected(a), ParseExit::Unexpected(b)) => *a == *b,
            (ParseExit::Missing(a), ParseExit::Missing(b)) => *a == *b,
            _ => false,
        }
    }
}

impl vstd::std_specs::cmp::PartialEqSpecImpl for ParseExit {
    open spec fn obeys_eq_spec() -> bool {
        true
    }

    open spec fn eq_spec(&self, other: &Self) -> bool {
        self@ == other@
    }
}

/// The status a program leaves with: 0 where the long spelling asked for
/// help or for the version, 1 for everything else.
pub open spec fn exit_status(e: ExitModel) -> int {
    match e {
        ExitModel::Help(Form::Long) => 0,
        ExitModel::Version(Form::Long) => 0,
        _ => 1,
    }
}

impl ParseExit {
    /// The status a program leaves with.
    pub fn status(&self) -> (r: i32)
        ensures
            r == exit_status(self@),
    {
        match self {
            ParseExit::Help(Form::Long) => 0,
            ParseExit::Version(Form::Long) => 0,
            _ => 1,
        }
    }
}

} // verus!

//! Command-line argument parsing against a schema declared up front.
//!
//! A host builds [`Arg`] declarations, registers them with an [`ArgParser`]
//! and hands it the tokens of the command line. The parser walks the tokens
//! once, from left to right, and afterwards answers typed lookups by long
//! name. The parser never prints and never ends the process: a parse that
//! stops early says why in a [`ParseExit`], and [`ArgParser::report`] turns
//! that into the text and the status a program would leave with.

pub mod argument;
pub mod exit;
pub mod help;
pub mod laws;
pub mod parser;
pub mod recognize;
pub mod registry;
pub mod walk;

pub use argument::{Arg, ArgKind, ArgModel, ArgType, WordType, WordValue};
pub use exit::ParseExit;
pub use help::{Report, Section};
pub use parser::{ArgParser, ParserModel};
pub use walk::Form;

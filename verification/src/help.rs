//! The texts a program shows: the help dialog, the version line, and what
//! is said when a parse stops early.

use vstd::prelude::*;
use crate::argument::{Arg, ArgModel, ArgType};
use crate::exit::{exit_status, ParseExit};
use crate::recognize::models;
use crate::walk::ExitModel;

verus! {

/// Taken on trust, not proved: `String::push` of the standard library
/// appends `ch`, so the string afterwards is the string before with `ch` at
/// its end.
pub assume_specification[ String::push ](s: &mut String, ch: char)
    ensures
        final(s)@ == old(s)@.push(ch),
;

/// The three lists of the help dialog.
#[derive(Clone, Copy, PartialEq, Eq, Structural, Debug)]
pub enum Section {
    /// The flags, each with both spellings.
    Flags,
    /// The options, each with both spellings.
    Options,
    /// The words, each by its bare name.
    Words,
}

/// The declaration is listed in the section.
pub open spec fn listed(a: ArgModel, s: Section) -> bool {
    match s {
        Section::Flags => a.kind is Flag,
        Section::Options => a.kind is Opt,
        Section::Words => a.kind is Word,
    }
}

/// The heading of a section.
pub open spec fn heading(s: Section) -> Seq<char> {
    match s {
        Section::Flags => "Flags:\n"@,
        Section::Options => "Options:\n"@,
        Section::Words => "Words:\n"@,
    }
}

/// The line of a declaration in its section: a tab; for flags and options
/// the short name after a dash, a comma and the long name after two
/// dashes, for words the bare name; a tab; the help text.
pub open spec fn entry(a: ArgModel, s: Section) -> Seq<char> {
    match s {
        Section::Words => "\t"@ + a.name + "\t"@ + a.help + "\n"@,
        _ => "\t-"@.push(a.short) + ", --"@ + a.name + "\t"@ + a.help + "\n"@,
    }
}

/// The lines of a section, in registration order.
pub open spec fn entries(args: Seq<ArgModel>, s: Section) -> Seq<char>
    decreases args.len(),
{
    if args.len() == 0 {
        Seq::empty()
    } else if listed(args.last(), s) {
        entries(args.drop_last(), s) + entry(args.last(), s)
    } else {
        entries(args.drop_last(), s)
    }
}

/// Some declaration is listed in the section.
pub open spec fn any_listed(args: Seq<ArgModel>, s: Section) -> bool {
    exists|i: int| 0 <= i < args.len() && listed(#[trigger] args[i], s)
}

/// A section: its heading and its lines; nothing at all where it has no
/// lines.
pub open spec fn section(args: Seq<ArgModel>, s: Section) -> Seq<char> {
    if any_listed(args, s) {
        heading(s) + entries(args, s)
    } else {
        Seq::empty()
    }
}

/// What stands above the sections: name and version, author, description
/// and copyright, each on a line; an empty line; the usage; an empty line.
pub open spec fn head(
    name: Seq<char>,
    version: Seq<char>,
    author: Seq<char>,
    info: Seq<char>,
    copyright: Seq<char>,
    usage: Seq<char>,
) -> Seq<char> {
    name + " "@ + version + "\n"@ + author + "\n"@ + info + "\n"@ + copyright + "\n"@
        + "\nUsage:\n\t"@ + usage + "\n\n"@
}

/// The three sections, one after the other.
pub open spec fn sections(args: Seq<ArgModel>) -> Seq<char> {
    section(args, Section::Flags) + section(args, Section::Options) + section(
        args,
        Section::Words,
    )
}

/// The version line: name and version.
pub open spec fn version_line(name: Seq<char>, version: Seq<char>) -> Seq<char> {
    name + " "@ + version + "\n"@
}

/// What is said of a token that is not accepted.
pub open spec fn unexpected_line(token: Seq<char>) -> Seq<char> {
    "Unexpected argument: \""@ + token + "\"\n"@
}

/// What is said of a required argument that was not seen.
pub open spec fn missing_line(name: Seq<char>) -> Seq<char> {
    "Didn't find \""@ + name + "\"\n\n"@
}

/// The line of a declaration in the section.
pub fn entry_line(a: &Arg, s: Section) -> (r: String)
    ensures
        r@ == entry(a@, s),
{
    let mut out = "\t".to_owned();
    match s {
        Section::Words => {},
        _ => {
            out.push('-');
            out.push(a.get_short());
            out.append(", --");
            proof {
                reveal_strlit("\t");
                reveal_strlit("\t-");
                assert("\t"@.push('-') =~= "\t-"@);
            }
        },
    }
    out.append(a.get_name().as_str());
    out.append("\t");
    out.append(a.get_help().as_str());
    out.append("\n");
    out
}

/// The text of a section.
pub fn section_text(args: &Vec<Arg>, s: Section) -> (r: String)
    ensures
        r@ == section(models(args@), s),
{
    let ghost all = models(args@);
    let mut lines = String::new();
    let mut any = false;
    let n: usize = args.len();
    let mut i: usize = 0;
    proof {
        assert(all.take(0) =~= Seq::<ArgModel>::empty());
    }
    while i < n
        invariant
            i <= n,
            n == args@.len(),
            all == models(args@),
            lines@ == entries(all.take(i as int), s),
            any == any_listed(all.take(i as int), s),
        decreases n - i,
    {
        let ghost seen = all.take(i as int);
        let ghost wider = all.take(i + 1);
        let here = match (s, args[i].get_type()) {
            (Section::Flags, ArgType::Flag(_)) => true,
            (Section::Options, ArgType::Option_(_)) => true,
            (Section::Words, ArgType::Word(_)) => true,
            _ => false,
        };
        proof {
            assert(wider.drop_last() =~= seen);
            assert(wider.last() == all[i as int]);
            assert(here == listed(all[i as int], s));
            if any_listed(seen, s) {
                let k = choose|k: int| 0 <= k < seen.len() && listed(#[trigger] seen[k], s);
                assert(wider[k] == seen[k]);
            }
            if any_listed(wider, s) && !here {
                let k = choose|k: int| 0 <= k < wider.len() && listed(#[trigger] wider[k], s);
                assert(seen[k] == wider[k]);
            }
        }
        if here {
            let line = entry_line(&args[i], s);
            lines.append(line.as_str());
            any = true;
        }
        i += 1;
    }
    proof {
        assert(all.take(n as int) =~= all);
    }
    if !any {
        return String::new();
    }
    let mut out = match s {
        Section::Flags => "Flags:\n".to_owned(),
        Section::Options => "Options:\n".to_owned(),
        Section::Words => "Words:\n".to_owned(),
    };
    out.append(lines.as_str());
    out
}

/// The text above the sections.
pub fn head_text(
    name: &str,
    version: &str,
    author: &str,
    info: &str,
    copyright: &str,
    usage: &str,
) -> (r: String)
    ensures
        r@ == head(name@, version@, author@, info@, copyright@, usage@),
{
    let mut out = name.to_owned();
    out.append(" ");
    out.append(version);
    out.append("\n");
    out.append(author);
    out.append("\n");
    out.append(info);
    out.append("\n");
    out.append(copyright);
    out.append("\n");
    out.append("\nUsage:\n\t");
    out.append(usage);
    out.append("\n\n");
    out
}

/// The text of the three sections.
pub fn sections_text(args: &Vec<Arg>) -> (r: String)
    ensures
        r@ == sections(models(args@)),
{
    let mut out = section_text(args, Section::Flags);
    out.append(section_text(args, Section::Options).as_str());
    out.append(section_text(args, Section::Words).as_str());
    out
}

/// The version line.
pub fn version_text(name: &str, version: &str) -> (r: String)
    ensures
        r@ == version_line(name@, version@),
{
    let mut out = name.to_owned();
    out.append(" ");
    out.append(version);
    out.append("\n");
    out
}

/// What is said of a token that is not accepted.
pub fn unexpected_text(token: &str) -> (r: String)
    ensures
        r@ == unexpected_line(token@),
{
    let mut out = "Unexpected argument: \"".to_owned();
    out.append(token);
    out.append("\"\n");
    out
}

/// What is said of a required argument that was not seen.
pub fn missing_text(name: &str) -> (r: String)
    ensures
        r@ == missing_line(name@),
{
    let mut out = "Didn't find \"".to_owned();
    out.append(name);
    out.append("\"\n\n");
    out
}

/// What a program writes and the status it leaves with, as mathematics.
pub struct ReportModel {
    /// What goes to standard output.
    pub out: Seq<char>,
    /// What goes to standard error.
    pub err: Seq<char>,
    /// The status the process leaves with.
    pub status: int,
}

/// What a program writes to standard output and to standard error, and the
/// status it leaves with.
#[derive(Debug)]
pub struct Report {
    /// What goes to standard output.
    pub out: String,
    /// What goes to standard error.
    pub err: String,
    /// The status the process leaves with.
    pub status: i32,
}

impl View for Report {
    type V = ReportModel;

    open spec fn view(&self) -> ReportModel {
        ReportModel { out: self.out@, err: self.err@, status: self.status as int }
    }
}

/// What is written for a parse that stopped with `e`, given the help
/// dialog and the version line. The help dialog goes to standard output for
/// everything but a request for the version; an unexpected token is named
/// on standard error; a missing argument is named on standard output,
/// before the help dialog.
pub open spec fn report_of(help: Seq<char>, version: Seq<char>, e: ExitModel) -> ReportModel {
    ReportModel {
        out: match e {
            ExitModel::Version(_) => version,
            ExitModel::Missing(name) => missing_line(name) + help,
            _ => help,
        },
        err: match e {
            ExitModel::Unexpected(token) => unexpected_line(token),
            _ => Seq::empty(),
        },
        status: exit_status(e),
    }
}

/// What is written for a parse that stopped with `exit`.
pub fn compose(help: String, version: String, exit: &ParseExit) -> (r: Report)
    ensures
        r@ == report_of(help@, version@, exit@),
{
    let status: i32 = exit.status();
    match exit {
        ParseExit::Version(_) => Report { out: version, err: String::new(), status },
        ParseExit::Missing(name) => {
            let mut out = missing_text(name.as_str());
            out.append(help.as_str());
            Report { out, err: String::new(), status }
        },
        ParseExit::Unexpected(token) => Report {
            out: help,
            err: unexpected_text(token.as_str()),
            status,
        },
        _ => Report { out: help, err: String::new(), status },
    }
}

} // verus!

//! The parser: a registry of declarations and what the program says of
//! itself.

use vstd::prelude::*;
use crate::argument::{Arg, ArgKind, ArgModel, ArgType, WordType};
use crate::exit::ParseExit;
use crate::help::{
    compose, head, head_text, report_of, sections, sections_text, version_line, version_text,
    Report, ReportModel,
};
use crate::laws::frame::{later_keeps_form, run_keeps_declarations};
use crate::recognize::{apply_tokens, enroll, first_missing, locate, models};
use crate::registry::{
    flag_of, option_of, register_all, register_keeps_form, well_formed, word_of,
};
use crate::walk::{help_name, parse, run, version_name, ExitModel};

verus! {

/// What a parser is: the texts that describe the program, the registry in
/// registration order, and whether an empty command line is an error.
pub struct ParserModel {
    /// Name of the program.
    pub name: Seq<char>,
    /// Name of the author.
    pub author: Seq<char>,
    /// Version of the program.
    pub version: Seq<char>,
    /// Copyright notice.
    pub copyright: Seq<char>,
    /// Description of the program.
    pub info: Seq<char>,
    /// Usage line.
    pub usage: Seq<char>,
    /// The declarations, in registration order.
    pub args: Seq<ArgModel>,
    /// Whether a command line without tokens is an error.
    pub require_args: bool,
}

impl ParserModel {
    /// The help dialog.
    pub open spec fn help_text(self) -> Seq<char> {
        head(self.name, self.version, self.author, self.info, self.copyright, self.usage)
            + sections(self.args)
    }

    /// The version line.
    pub open spec fn version_text(self) -> Seq<char> {
        version_line(self.name, self.version)
    }

    /// What the program writes, and the status it leaves with, after a
    /// parse that stopped with `e`.
    pub open spec fn report(self, e: ExitModel) -> ReportModel {
        report_of(self.help_text(), self.version_text(), e)
    }
}

/// The flag `help`, which every parser starts with.
pub open spec fn help_flag() -> ArgModel {
    ArgModel {
        name: help_name(),
        short: 'h',
        help: "Prints the help dialog"@,
        kind: ArgKind::Flag(false),
        required: false,
        set: false,
    }
}

/// The flag `version`, which every parser starts with.
pub open spec fn version_flag() -> ArgModel {
    ArgModel {
        name: version_name(),
        short: 'v',
        help: "Prints the version"@,
        kind: ArgKind::Flag(false),
        required: false,
        set: false,
    }
}

/// A parser that was just made for the program `name`.
pub open spec fn fresh(name: Seq<char>) -> ParserModel {
    ParserModel {
        name,
        author: Seq::empty(),
        version: Seq::empty(),
        copyright: Seq::empty(),
        info: Seq::empty(),
        usage: name + " [flags] [options]"@,
        args: seq![help_flag(), version_flag()],
        require_args: false,
    }
}

/// The models of declarations handed over by reference.
pub open spec fn given(v: Seq<&mut Arg>) -> Seq<ArgModel> {
    Seq::new(v.len(), |i: int| (*v[i])@)
}

/// The reason for which a parse failed, if it did.
pub open spec fn failure(r: Result<(), ParseExit>) -> Option<ExitModel> {
    match r {
        Ok(_) => None,
        Err(e) => Some(e@),
    }
}

/// Main parser.
pub struct ArgParser {
    name: String,
    author: String,
    version: String,
    copyright: String,
    info: String,
    usage: String,
    args: Vec<Arg>,
    require_args: bool,
}

impl View for ArgParser {
    type V = ParserModel;

    closed spec fn view(&self) -> ParserModel {
        ParserModel {
            name: self.name@,
            author: self.author@,
            version: self.version@,
            copyright: self.copyright@,
            info: self.info@,
            usage: self.usage@,
            args: models(self.args@),
            require_args: self.require_args,
        }
    }
}

impl ArgParser {
    /// Every parser holds a well-formed registry.
    #[verifier::type_invariant]
    spec fn held_well(&self) -> bool {
        well_formed(models(self.args@))
    }

    /// A parser for the program `name`, with the flags `help` and `version`
    /// registered.
    pub fn new(name: &str) -> (r: Self)
        ensures
            r@ == fresh(name@),
            well_formed(r@.args),
    {
        proof {
            reveal_strlit("help");
            reveal_strlit("version");
        }
        let mut help = Arg::new("help");
        help.short('h').help("Prints the help dialog").flag(false);
        let mut version = Arg::new("version");
        version.short('v').help("Prints the version").flag(false);
        let mut usage = name.to_owned();
        usage.append(" [flags] [options]");
        let mut args: Vec<Arg> = Vec::new();
        args.push(help);
        args.push(version);
        proof {
            assert(models(args@) =~= seq![help_flag(), version_flag()]);
            assert(help_name().len() != version_name().len());
        }
        ArgParser {
            name: name.to_owned(),
            author: String::new(),
            version: String::new(),
            copyright: String::new(),
            info: String::new(),
            usage,
            args,
            require_args: false,
        }
    }

    /// Sets the name of the program.
    pub fn name(&mut self, name: &str) -> (r: &mut Self)
        ensures
            r@ == (ParserModel { name: name@, ..old(self)@ }),
            *final(self) == *final(r),
    {
        proof {
            use_type_invariant(&*self);
        }
        self.name = name.to_owned();
        self
    }

    /// Sets the name of the author.
    pub fn author(&mut self, author: &str) -> (r: &mut Self)
        ensures
            r@ == (ParserModel { author: author@, ..old(self)@ }),
            *final(self) == *final(r),
    {
        proof {
            use_type_invariant(&*self);
        }
        self.author = author.to_owned();
        self
    }

    /// Sets the version of the program.
    pub fn version(&mut self, version: &str) -> (r: &mut Self)
        ensures
            r@ == (ParserModel { version: version@, ..old(self)@ }),
            *final(self) == *final(r),
    {
        proof {
            use_type_invariant(&*self);
        }
        self.version = version.to_owned();
        self
    }

    /// Sets the copyright notice.
    pub fn copyright(&mut self, copyright: &str) -> (r: &mut Self)
        ensures
            r@ == (ParserModel { copyright: copyright@, ..old(self)@ }),
            *final(self) == *final(r),
    {
        proof {
            use_type_invariant(&*self);
        }
        self.copyright = copyright.to_owned();
        self
    }

    /// Sets the description of the program.
    pub fn info(&mut self, info: &str) -> (r: &mut Self)
        ensures
            r@ == (ParserModel { info: info@, ..old(self)@ }),
            *final(self) == *final(r),
    {
        proof {
            use_type_invariant(&*self);
        }
        self.info = info.to_owned();
        self
    }

    /// Sets the usage line.
    pub fn usage(&mut self, usage: &str) -> (r: &mut Self)
        ensures
            r@ == (ParserModel { usage: usage@, ..old(self)@ }),
            *final(self) == *final(r),
    {
        proof {
            use_type_invariant(&*self);
        }
        self.usage = usage.to_owned();
        self
    }

    /// Says whether a command line without tokens is an error.
    pub fn require_args(&mut self, require: bool) -> (r: &mut Self)
        ensures
            r@ == (ParserModel { require_args: require, ..old(self)@ }),
            *final(self) == *final(r),
    {
        proof {
            use_type_invariant(&*self);
        }
        self.require_args = require;
        self
    }

    /// Registers a copy of each declaration, in order. One that bears the
    /// long name of a declaration already registered takes its place.
    pub fn args(&mut self, args: Vec<&mut Arg>) -> (r: &mut Self)
        requires
            forall|i: int| 0 <= i < args@.len() ==> !((#[trigger] given(args@)[i]).kind is Unknown),
        ensures
            r@ == (ParserModel { args: register_all(old(self)@.args, given(args@)), ..old(self)@ }),
            well_formed(r@.args),
            *final(self) == *final(r),
    {
        let ghost more = given(args@);
        let n: usize = args.len();
        let mut i: usize = 0;
        // The registry is taken out while it is worked on and put back
        // when it is done, so that the parser is well formed throughout.
        let mut held: Vec<Arg> = Vec::new();
        proof {
            use_type_invariant(&*self);
            assert(models(held@) =~= Seq::<ArgModel>::empty());
            assert(more.take(0) =~= Seq::<ArgModel>::empty());
        }
        std::mem::swap(&mut self.args, &mut held);
        while i < n
            invariant
                i <= n,
                n == args@.len(),
                more == given(args@),
                forall|j: int| 0 <= j < n ==> !((#[trigger] more[j]).kind is Unknown),
                well_formed(models(held@)),
                models(held@) == register_all(old(self)@.args, more.take(i as int)),
                self@ == (ParserModel { args: Seq::<ArgModel>::empty(), ..old(self)@ }),
            decreases n - i,
        {
            let a: Arg = args[i].clone();
            proof {
                assert(a@ == more[i as int]);
                let wider = more.take(i + 1);
                assert(wider.drop_last() =~= more.take(i as int));
                assert(wider.last() == more[i as int]);
                register_keeps_form(models(held@), a@);
            }
            enroll(&mut held, a);
            i += 1;
        }
        proof {
            assert(more.take(n as int) =~= more);
        }
        std::mem::swap(&mut self.args, &mut held);
        self
    }

    /// The value of the flag registered under `name`; nothing where the
    /// name is not registered or is registered as something else.
    pub fn get_flag(&self, name: &str) -> (r: Option<bool>)
        ensures
            r == flag_of(self@.args, name@),
    {
        let key = name.to_owned();
        match locate(&self.args, &key) {
            Some(i) => match self.args[i].get_type() {
                ArgType::Flag(b) => Some(*b),
                _ => None,
            },
            None => None,
        }
    }

    /// The value of the option registered under `name`; nothing where the
    /// name is not registered or is registered as something else.
    pub fn get_option(&self, name: &str) -> (r: Option<String>)
        ensures
            r.deep_view() == option_of(self@.args, name@),
    {
        let key = name.to_owned();
        match locate(&self.args, &key) {
            Some(i) => match self.args[i].get_type() {
                ArgType::Option_(v) => Some(v.clone()),
                _ => None,
            },
            None => None,
        }
    }

    /// The value of the word registered under `name`; nothing where the
    /// name is not registered or is registered as something else.
    pub fn get_word(&self, name: &str) -> (r: Option<WordType>)
        ensures
            r.deep_view() == word_of(self@.args, name@),
    {
        let key = name.to_owned();
        match locate(&self.args, &key) {
            Some(i) => match self.args[i].get_type() {
                ArgType::Word(w) => Some(w.clone()),
                _ => None,
            },
            None => None,
        }
    }

    /// Parses the tokens of a command line, the program's own name already
    /// taken off. The registry afterwards holds what the walk made of it,
    /// whether the parse went well or not.
    pub fn parse_vec(&mut self, args: Vec<String>) -> (r: Result<(), ParseExit>)
        ensures
            final(self)@ == (ParserModel {
                args: parse(old(self)@.args, old(self)@.require_args, args.deep_view()).args,
                ..old(self)@
            }),
            failure(r) == parse(old(self)@.args, old(self)@.require_args, args.deep_view()).exit,
            well_formed(final(self)@.args),
    {
        proof {
            use_type_invariant(&*self);
            run_keeps_declarations(self@.args, args.deep_view());
            later_keeps_form(self@.args, run(self@.args, args.deep_view()).args);
        }
        if args.len() == 0 && self.require_args {
            return Err(ParseExit::NoArguments);
        }
        // As in `args`, the registry is taken out for the walk.
        let mut held: Vec<Arg> = Vec::new();
        proof {
            assert(models(held@) =~= Seq::<ArgModel>::empty());
        }
        std::mem::swap(&mut self.args, &mut held);
        let stop = apply_tokens(&mut held, &args);
        std::mem::swap(&mut self.args, &mut held);
        if let Some(e) = stop {
            return Err(e);
        }
        match first_missing(&self.args) {
            Some(name) => Err(ParseExit::Missing(name)),
            None => Ok(()),
        }
    }

    /// The help dialog.
    pub fn help_text(&self) -> (r: String)
        ensures
            r@ == self@.help_text(),
    {
        let mut out = head_text(
            self.name.as_str(),
            self.version.as_str(),
            self.author.as_str(),
            self.info.as_str(),
            self.copyright.as_str(),
            self.usage.as_str(),
        );
        out.append(sections_text(&self.args).as_str());
        out
    }

    /// The version line.
    pub fn version_text(&self) -> (r: String)
        ensures
            r@ == self@.version_text(),
    {
        version_text(self.name.as_str(), self.version.as_str())
    }

    /// What the program writes, and the status it leaves with, after a
    /// parse that stopped with `exit`.
    pub fn report(&self, exit: &ParseExit) -> (r: Report)
        ensures
            r@ == self@.report(exit@),
    {
        compose(self.help_text(), self.version_text(), exit)
    }
}

} // verus!

//! Argument declarations and their mathematical models.

use vstd::prelude::*;
use crate::recognize::value_of;
use crate::walk::{dash_touch, word_touch};

verus! {

/// The value of a word argument.
pub enum WordValue {
    /// Toggled by the presence of the word.
    Boolean(bool),
    /// Replaced by the token that follows the word.
    Text(Seq<char>),
}

/// The kind of an argument, together with its current value.
pub enum ArgKind {
    /// Not yet decided; a parser refuses to register it.
    Unknown,
    /// A boolean, toggled by `--name` or `-s`.
    Flag(bool),
    /// A string, taken from the token after `--name` or `-s`.
    Opt(Seq<char>),
    /// Matched by its bare name, without dashes.
    Word(WordValue),
}

/// What a declaration is, as far as parsing and lookup are concerned.
pub struct ArgModel {
    /// The long name: the key for lookups, met as `--name` or, for a word,
    /// bare.
    pub name: Seq<char>,
    /// The short name, met after a single dash.
    pub short: char,
    /// The text shown in the help dialog.
    pub help: Seq<char>,
    /// The kind, with the default or, after parsing, the value.
    pub kind: ArgKind,
    /// Whether a parse fails when the argument is not seen.
    pub required: bool,
    /// Whether a parse has seen the argument.
    pub set: bool,
}

/// Value carried by a word argument.
#[derive(Debug)]
pub enum WordType {
    /// A flag without dashes.
    Boolean(bool),
    /// An option without dashes.
    String_(String),
}

impl View for WordType {
    type V = WordValue;

    open spec fn view(&self) -> WordValue {
        match self {
            WordType::Boolean(b) => WordValue::Boolean(*b),
            WordType::String_(s) => WordValue::Text(s@),
        }
    }
}

impl DeepView for WordType {
    type V = WordValue;

    open spec fn deep_view(&self) -> WordValue {
        self@
    }
}

impl Clone for WordType {
    fn clone(&self) -> (r: Self)
        ensures
            r == *self,
    {
        match self {
            WordType::Boolean(b) => WordType::Boolean(*b),
            WordType::String_(s) => WordType::String_(s.clone()),
        }
    }
}

impl PartialEq for WordType {
    fn eq(&self, other: &Self) -> (r: bool) {
        match (self, other) {
            (WordType::Boolean(a), WordType::Boolean(b)) => *a == *b,
            (WordType::String_(a), WordType::String_(b)) => *a == *b,
            _ => false,
        }
    }
}

impl vstd::std_specs::cmp::PartialEqSpecImpl for WordType {
    open spec fn obeys_eq_spec() -> bool {
        true
    }

    open spec fn eq_spec(&self, other: &Self) -> bool {
        self@ == other@
    }
}

impl WordType {
    /// A boolean word value.
    pub fn boolean(b: bool) -> (r: Self)
        ensures
            r@ == WordValue::Boolean(b),
    {
        WordType::Boolean(b)
    }

    /// A string word value.
    pub fn string(s: &str) -> (r: Self)
        ensures
            r@ == WordValue::Text(s@),
    {
        WordType::String_(s.to_owned())
    }

    /// The boolean, if this is a boolean word value.
    pub fn as_bool(&self) -> (r: Option<bool>)
        ensures
            r == match self@ {
                WordValue::Boolean(b) => Some(b),
                WordValue::Text(_) => None,
            },
    {
        match self {
            WordType::Boolean(b) => Some(*b),
            WordType::String_(_) => None,
        }
    }

    /// The string, if this is a string word value.
    pub fn as_string(&self) -> (r: Option<String>)
        ensures
            r.deep_view() == match self@ {
                WordValue::Boolean(_) => None::<Seq<char>>,
                WordValue::Text(t) => Some(t),
            },
    {
        match self {
            WordType::Boolean(_) => None,
            WordType::String_(s) => Some(s.clone()),
        }
    }
}

/// Kind of an argument, holding its default and, after parsing, its value.
#[derive(Debug)]
pub enum ArgType {
    /// Placeholder of a fresh declaration.
    Unknown,
    /// Toggled when the name is found.
    Flag(bool),
    /// Set to the token after the name.
    Option_(String),
    /// Matched without dashes.
    Word(WordType),
}

impl View for ArgType {
    type V = ArgKind;

    open spec fn view(&self) -> ArgKind {
        match self {
            ArgType::Unknown => ArgKind::Unknown,
            ArgType::Flag(b) => ArgKind::Flag(*b),
            ArgType::Option_(s) => ArgKind::Opt(s@),
            ArgType::Word(w) => ArgKind::Word(w@),
        }
    }
}

impl Clone for ArgType {
    fn clone(&self) -> (r: Self)
        ensures
            r == *self,
    {
        match self {
            ArgType::Unknown => ArgType::Unknown,
            ArgType::Flag(b) => ArgType::Flag(*b),
            ArgType::Option_(s) => ArgType::Option_(s.clone()),
            ArgType::Word(w) => ArgType::Word(w.clone()),
        }
    }
}

impl PartialEq for ArgType {
    fn eq(&self, other: &Self) -> (r: bool) {
        match (self, other) {
            (ArgType::Unknown, ArgType::Unknown) => true,
            (ArgType::Flag(a), ArgType::Flag(b)) => *a == *b,
            (ArgType::Option_(a), ArgType::Option_(b)) => *a == *b,
            (ArgType::Word(a), ArgType::Word(b)) => *a == *b,
            _ => false,
        }
    }
}

impl vstd::std_specs::cmp::PartialEqSpecImpl for ArgType {
    open spec fn obeys_eq_spec() -> bool {
        true
    }

    open spec fn eq_spec(&self, other: &Self) -> bool {
        self@ == other@
    }
}

impl ArgType {
    /// An option with default `opt`.
    pub fn option(opt: &str) -> (r: Self)
        ensures
            r@ == ArgKind::Opt(opt@),
    {
        ArgType::Option_(opt.to_owned())
    }

    /// A flag with default `f`.
    pub fn flag(f: bool) -> (r: Self)
        ensures
            r@ == ArgKind::Flag(f),
    {
        ArgType::Flag(f)
    }

    /// A word with default `wt`.
    pub fn word(wt: WordType) -> (r: Self)
        ensures
            r@ == ArgKind::Word(wt@),
    {
        ArgType::Word(wt)
    }
}

/// One declared argument.
#[derive(Debug)]
pub struct Arg {
    pub(crate) name: String,
    pub(crate) short: char,
    pub(crate) help: String,
    pub(crate) typ: ArgType,
    pub(crate) required: bool,
    pub(crate) set: bool,
}

impl View for Arg {
    type V = ArgModel;

    closed spec fn view(&self) -> ArgModel {
        ArgModel {
            name: self.name@,
            short: self.short,
            help: self.help@,
            kind: self.typ@,
            required: self.required,
            set: self.set,
        }
    }
}

impl Clone for Arg {
    fn clone(&self) -> (r: Self)
        ensures
            r == *self,
    {
        Arg {
            name: self.name.clone(),
            short: self.short,
            help: self.help.clone(),
            typ: self.typ.clone(),
            required: self.required,
            set: self.set,
        }
    }
}

impl Arg {
    /// A declaration named `name`: no help text, the name's first character
    /// as short name, kind not yet decided, not required, not seen.
    pub fn new(name: &str) -> (r: Self)
        requires
            name@.len() > 0,
        ensures
            r@ == (ArgModel {
                name: name@,
                short: name@[0],
                help: Seq::<char>::empty(),
                kind: ArgKind::Unknown,
                required: false,
                set: false,
            }),
    {
        Arg {
            name: name.to_owned(),
            short: name.get_char(0),
            help: String::new(),
            typ: ArgType::Unknown,
            required: false,
            set: false,
        }
    }

    /// Makes this a flag with default `val`.
    pub fn flag(&mut self, val: bool) -> (r: &mut Self)
        ensures
            r@ == (ArgModel { kind: ArgKind::Flag(val), ..old(self)@ }),
            *final(self) == *final(r),
    {
        self.typ = ArgType::flag(val);
        self
    }

    /// Makes this an option with default `val`.
    pub fn option(&mut self, val: &str) -> (r: &mut Self)
        ensures
            r@ == (ArgModel { kind: ArgKind::Opt(val@), ..old(self)@ }),
            *final(self) == *final(r),
    {
        self.typ = ArgType::option(val);
        self
    }

    /// Makes this a word with default `wt`.
    pub fn word(&mut self, wt: WordType) -> (r: &mut Self)
        ensures
            r@ == (ArgModel { kind: ArgKind::Word(wt@), ..old(self)@ }),
            *final(self) == *final(r),
    {
        self.typ = ArgType::word(wt);
        self
    }

    /// Sets the help text.
    pub fn help(&mut self, help: &str) -> (r: &mut Self)
        ensures
            r@ == (ArgModel { help: help@, ..old(self)@ }),
            *final(self) == *final(r),
    {
        self.help = help.to_owned();
        self
    }

    /// Sets the short name.
    pub fn short(&mut self, short: char) -> (r: &mut Self)
        ensures
            r@ == (ArgModel { short: short, ..old(self)@ }),
            *final(self) == *final(r),
    {
        self.short = short;
        self
    }

    /// Says whether parsing fails when this argument is not seen.
    pub fn required(&mut self, required: bool) -> (r: &mut Self)
        ensures
            r@ == (ArgModel { required: required, ..old(self)@ }),
            *final(self) == *final(r),
    {
        self.required = required;
        self
    }

    /// Records that the parser has seen this argument.
    pub(crate) fn set(&mut self)
        ensures
            final(self)@ == (ArgModel { set: true, ..old(self)@ }),
    {
        self.set = true;
    }

    /// The long name.
    pub fn get_name(&self) -> (r: &String)
        ensures
            r@ == self@.name,
    {
        &self.name
    }

    /// The short name.
    pub fn get_short(&self) -> (r: char)
        ensures
            r == self@.short,
    {
        self.short
    }

    /// The help text.
    pub fn get_help(&self) -> (r: &String)
        ensures
            r@ == self@.help,
    {
        &self.help
    }

    /// The kind, with the default or, after parsing, the value.
    pub fn get_type(&self) -> (r: &ArgType)
        ensures
            r@ == self@.kind,
    {
        &self.typ
    }

    /// Whether parsing fails when this argument is not seen.
    pub fn is_required(&self) -> (r: bool)
        ensures
            r == self@.required,
    {
        self.required
    }

    /// Whether the parser has seen this argument.
    pub fn is_set(&self) -> (r: bool)
        ensures
            r == self@.set,
    {
        self.set
    }

    /// Takes note that the bare name was met, with `next` the token after
    /// it.
    pub(crate) fn touch_word(&mut self, next: Option<&String>)
        ensures
            final(self)@ == word_touch(old(self)@, next.deep_view()),
    {
        let value = value_of(next);
        match &self.typ {
            ArgType::Word(WordType::Boolean(b)) => {
                let toggled = !*b;
                self.word(WordType::Boolean(toggled));
                self.set();
            },
            ArgType::Word(WordType::String_(_)) => {
                if let Some(v) = value {
                    self.word(WordType::String_(v.clone()));
                    self.set();
                }
            },
            _ => {},
        }
    }

    /// Takes note that `--name` or the short name was met, with `next` the
    /// token after it.
    pub(crate) fn touch_dash(&mut self, next: Option<&String>)
        ensures
            final(self)@ == dash_touch(old(self)@, next.deep_view()),
    {
        let value = value_of(next);
        match &self.typ {
            ArgType::Flag(b) => {
                let toggled = !*b;
                self.flag(toggled);
                self.set();
            },
            ArgType::Option_(_) => {
                if let Some(v) = value {
                    self.option(v.as_str());
                    self.set();
                }
            },
            _ => {},
        }
    }
}

} // verus!

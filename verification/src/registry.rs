//! The registry of declarations: a sequence in registration order, in which
//! no long name occurs twice and no kind is left undecided.

use vstd::prelude::*;
use crate::argument::{ArgKind, ArgModel, WordValue};

verus! {

/// No long name occurs twice, and every kind is decided.
pub open spec fn well_formed(args: Seq<ArgModel>) -> bool {
    &&& forall|i: int, j: int|
        0 <= i < j < args.len() ==> (#[trigger] args[i]).name != (#[trigger] args[j]).name
    &&& forall|i: int| 0 <= i < args.len() ==> !((#[trigger] args[i]).kind is Unknown)
}

/// Some declaration has this long name.
pub open spec fn registered(args: Seq<ArgModel>, name: Seq<char>) -> bool {
    exists|i: int| 0 <= i < args.len() && (#[trigger] args[i]).name == name
}

/// Some word declaration has this name.
pub open spec fn word_named(args: Seq<ArgModel>, name: Seq<char>) -> bool {
    exists|i: int| 0 <= i < args.len() && (#[trigger] args[i]).name == name && args[i].kind is Word
}

/// Some option has this short name.
pub open spec fn option_short(args: Seq<ArgModel>, c: char) -> bool {
    exists|i: int| 0 <= i < args.len() && (#[trigger] args[i]).short == c && args[i].kind is Opt
}

/// `i` is the first place that holds the long name.
pub open spec fn first_at(args: Seq<ArgModel>, name: Seq<char>, i: int) -> bool {
    &&& 0 <= i < args.len()
    &&& args[i].name == name
    &&& forall|j: int| 0 <= j < i ==> (#[trigger] args[j]).name != name
}

/// The first place that holds the long name, if any does.
pub open spec fn position(args: Seq<ArgModel>, name: Seq<char>) -> Option<int> {
    if exists|i: int| first_at(args, name, i) {
        Some(choose|i: int| first_at(args, name, i))
    } else {
        None
    }
}

/// The declaration registered under the long name.
pub open spec fn lookup(args: Seq<ArgModel>, name: Seq<char>) -> Option<ArgModel> {
    match position(args, name) {
        Some(i) => Some(args[i]),
        None => None,
    }
}

/// The value of the flag of that name; nothing where the name is not
/// registered or is not a flag.
pub open spec fn flag_of(args: Seq<ArgModel>, name: Seq<char>) -> Option<bool> {
    match lookup(args, name) {
        Some(a) => match a.kind {
            ArgKind::Flag(b) => Some(b),
            _ => None,
        },
        None => None,
    }
}

/// The value of the option of that name; nothing where the name is not
/// registered or is not an option.
pub open spec fn option_of(args: Seq<ArgModel>, name: Seq<char>) -> Option<Seq<char>> {
    match lookup(args, name) {
        Some(a) => match a.kind {
            ArgKind::Opt(v) => Some(v),
            _ => None,
        },
        None => None,
    }
}

/// The value of the word of that name; nothing where the name is not
/// registered or is not a word.
pub open spec fn word_of(args: Seq<ArgModel>, name: Seq<char>) -> Option<WordValue> {
    match lookup(args, name) {
        Some(a) => match a.kind {
            ArgKind::Word(w) => Some(w),
            _ => None,
        },
        None => None,
    }
}

/// The registry after `a` was registered: it takes the place of the
/// declaration of the same name, or comes last.
pub open spec fn register(args: Seq<ArgModel>, a: ArgModel) -> Seq<ArgModel> {
    match position(args, a.name) {
        Some(i) => args.update(i, a),
        None => args.push(a),
    }
}

/// The registry after each of `more` was registered, in order.
pub open spec fn register_all(args: Seq<ArgModel>, more: Seq<ArgModel>) -> Seq<ArgModel>
    decreases more.len(),
{
    if more.len() == 0 {
        args
    } else {
        register(register_all(args, more.drop_last()), more.last())
    }
}

/// The place found by a search from the front is the position.
pub proof fn position_found(args: Seq<ArgModel>, name: Seq<char>, i: int)
    requires
        first_at(args, name, i),
    ensures
        position(args, name) == Some(i),
{
}

/// A name that no place holds has no position, and the converse.
pub proof fn position_none(args: Seq<ArgModel>, name: Seq<char>)
    ensures
        position(args, name) is None <==> !registered(args, name),
        position(args, name) matches Some(i) ==> first_at(args, name, i),
{
    if registered(args, name) {
        let i = choose|i: int| 0 <= i < args.len() && (#[trigger] args[i]).name == name;
        least_holder(args, name, i);
    }
}

/// Below any place that holds the name there is a first one.
proof fn least_holder(args: Seq<ArgModel>, name: Seq<char>, i: int)
    requires
        0 <= i < args.len(),
        args[i].name == name,
    ensures
        exists|k: int| first_at(args, name, k),
    decreases i,
{
    if exists|j: int| 0 <= j < i && (#[trigger] args[j]).name == name {
        let j = choose|j: int| 0 <= j < i && (#[trigger] args[j]).name == name;
        least_holder(args, name, j);
    } else {
        assert(first_at(args, name, i));
    }
}

/// Registering a declaration of decided kind keeps the registry well
/// formed.
pub proof fn register_keeps_form(args: Seq<ArgModel>, a: ArgModel)
    requires
        well_formed(args),
        !(a.kind is Unknown),
    ensures
        well_formed(register(args, a)),
{
    position_none(args, a.name);
}

} // verus!

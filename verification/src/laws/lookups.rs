//! Lookups by name and kind.

use vstd::prelude::*;
use crate::argument::{ArgKind, ArgModel};
use crate::laws::defaults::unique_position;
use crate::registry::{
    flag_of, lookup, option_of, position, position_found, position_none, register, registered,
    well_formed, word_of,
};

verus! {

/// A lookup by the name of a registered declaration gives its value where
/// the lookup is for its kind, and nothing where it is for another kind: the
/// flag lookup gives nothing for an option or a word, and so on.
pub proof fn lookup_by_kind(args: Seq<ArgModel>, i: int)
    requires
        well_formed(args),
        0 <= i < args.len(),
    ensures
        flag_of(args, args[i].name) == (match args[i].kind {
            ArgKind::Flag(b) => Some(b),
            _ => None,
        }),
        option_of(args, args[i].name) == (match args[i].kind {
            ArgKind::Opt(v) => Some(v),
            _ => None,
        }),
        word_of(args, args[i].name) == (match args[i].kind {
            ArgKind::Word(w) => Some(w),
            _ => None,
        }),
{
    unique_position(args, i);
}

/// Of the three lookups by one name at most one gives a value, and none
/// does for a name that is not registered.
pub proof fn lookups_exclude(args: Seq<ArgModel>, name: Seq<char>)
    ensures
        !(flag_of(args, name) is Some && option_of(args, name) is Some),
        !(flag_of(args, name) is Some && word_of(args, name) is Some),
        !(option_of(args, name) is Some && word_of(args, name) is Some),
        !registered(args, name) ==> flag_of(args, name) is None && option_of(args, name) is None
            && word_of(args, name) is None,
{
    position_none(args, name);
}

/// Registering works as in a map keyed by long name: a lookup by the name
/// just registered finds the new declaration, and a lookup by any other
/// name finds what it found before.
pub proof fn lookup_after_register(args: Seq<ArgModel>, a: ArgModel, name: Seq<char>)
    ensures
        lookup(register(args, a), a.name) == Some(a),
        name != a.name ==> lookup(register(args, a), name) == lookup(args, name),
        registered(register(args, a), name) == (name == a.name || registered(args, name)),
{
    let after = register(args, a);
    position_none(args, a.name);
    position_none(args, name);
    position_none(after, name);
    let place = match position(args, a.name) {
        Some(i) => i,
        None => args.len() as int,
    };
    position_found(after, a.name, place);
    if name != a.name && position(args, name) is Some {
        position_found(after, name, position(args, name)->0);
    }
}

} // verus!

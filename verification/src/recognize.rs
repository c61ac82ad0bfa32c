//! Recognising tokens and applying them to the declarations held.

use vstd::prelude::*;
use crate::argument::{Arg, ArgModel, ArgType};
use crate::exit::ParseExit;
use crate::registry::{
    option_short, position, position_found, position_none, register, registered, word_named,
};
use crate::walk::{
    cluster, dashed, long_form, missing, on_long, on_short, on_word, run, second, short_step,
    step, value_after, Form, Walk,
};

verus! {

/// The models of the declarations held, in order.
pub open spec fn models(v: Seq<Arg>) -> Seq<ArgModel> {
    Seq::new(v.len(), |i: int| v[i]@)
}

/// Whether the token begins with a dash.
pub fn is_dashed(t: &str) -> (r: bool)
    ensures
        r == dashed(t@),
{
    !t.is_empty() && t.get_char(0) == '-'
}

/// What follows the two dashes of a long token; nothing for any other
/// token.
pub fn long_name(t: &str) -> (r: Option<String>)
    ensures
        r.deep_view() == (if long_form(t@) {
            Some(t@.skip(2))
        } else {
            None
        }),
{
    let n: usize = t.unicode_len();
    if n >= 2 && t.get_char(0) == '-' && t.get_char(1) == '-' {
        let name = t.substring_char(2, n).to_owned();
        Some(name)
    } else {
        None
    }
}

/// The value that the token after a name supplies.
pub fn value_of<'a>(next: Option<&'a String>) -> (r: Option<&'a String>)
    ensures
        r.deep_view() == value_after(next.deep_view()),
{
    match next {
        Some(v) => if is_dashed(v.as_str()) {
            None
        } else {
            Some(v)
        },
        None => None,
    }
}

/// Lets every word of the name `t` take note of the token. Says whether
/// there was one.
pub fn sweep_word(args: &mut Vec<Arg>, t: &String, next: Option<&String>) -> (hit: bool)
    ensures
        models(final(args)@) == on_word(models(old(args)@), t@, next.deep_view()),
        hit == word_named(models(old(args)@), t@),
{
    let ghost before = models(args@);
    let n: usize = args.len();
    let mut hit = false;
    let mut i: usize = 0;
    while i < n
        invariant
            i <= n,
            args@.len() == n,
            before.len() == n,
            forall|j: int|
                0 <= j < i ==> (#[trigger] args@[j])@ == on_word(before, t@, next.deep_view())[j],
            forall|j: int| i <= j < n ==> (#[trigger] args@[j])@ == before[j],
            hit == word_named(before.take(i as int), t@),
        decreases n - i,
    {
        let ghost seen = before.take(i as int);
        let ghost wider = before.take(i + 1);
        let is_word = match args[i].get_type() {
            ArgType::Word(_) => true,
            _ => false,
        };
        let here = *args[i].get_name() == *t && is_word;
        if here {
            args[i].touch_word(next);
            hit = true;
        }
        proof {
            assert(wider[i as int] == before[i as int]);
            if word_named(seen, t@) {
                let k = choose|k: int|
                    0 <= k < seen.len() && (#[trigger] seen[k]).name == t@ && seen[k].kind is Word;
                assert(wider[k] == seen[k]);
            }
            if word_named(wider, t@) && !here {
                let k = choose|k: int|
                    0 <= k < wider.len() && (#[trigger] wider[k]).name == t@
                        && wider[k].kind is Word;
                assert(seen[k] == wider[k]);
            }
        }
        i += 1;
    }
    proof {
        assert(before.take(n as int) =~= before);
        assert(models(args@) =~= on_word(before, t@, next.deep_view()));
    }
    hit
}

/// Lets every declaration of the long name take note of `--name`. Says
/// whether there was one.
pub fn sweep_long(args: &mut Vec<Arg>, name: &String, next: Option<&String>) -> (found: bool)
    ensures
        models(final(args)@) == on_long(models(old(args)@), name@, next.deep_view()),
        found == registered(models(old(args)@), name@),
{
    let ghost before = models(args@);
    let n: usize = args.len();
    let mut found = false;
    let mut i: usize = 0;
    while i < n
        invariant
            i <= n,
            args@.len() == n,
            before.len() == n,
            forall|j: int|
                0 <= j < i ==> (#[trigger] args@[j])@ == on_long(
                    before,
                    name@,
                    next.deep_view(),
                )[j],
            forall|j: int| i <= j < n ==> (#[trigger] args@[j])@ == before[j],
            found == registered(before.take(i as int), name@),
        decreases n - i,
    {
        let ghost seen = before.take(i as int);
        let ghost wider = before.take(i + 1);
        let here = *args[i].get_name() == *name;
        if here {
            args[i].touch_dash(next);
            found = true;
        }
        proof {
            assert(wider[i as int] == before[i as int]);
            if registered(seen, name@) {
                let k = choose|k: int| 0 <= k < seen.len() && (#[trigger] seen[k]).name == name@;
                assert(wider[k] == seen[k]);
            }
            if registered(wider, name@) && !here {
                let k = choose|k: int| 0 <= k < wider.len() && (#[trigger] wider[k]).name == name@;
                assert(seen[k] == wider[k]);
            }
        }
        i += 1;
    }
    proof {
        assert(before.take(n as int) =~= before);
        assert(models(args@) =~= on_long(before, name@, next.deep_view()));
    }
    found
}

/// Whether some option has the short name.
pub fn has_option_short(args: &Vec<Arg>, c: char) -> (r: bool)
    ensures
        r == option_short(models(args@), c),
{
    let ghost all = models(args@);
    let n: usize = args.len();
    let mut i: usize = 0;
    while i < n
        invariant
            i <= n,
            args@.len() == n,
            all == models(args@),
            !option_short(all.take(i as int), c),
        decreases n - i,
    {
        let is_option = match args[i].get_type() {
            ArgType::Option_(_) => true,
            _ => false,
        };
        if args[i].get_short() == c && is_option {
            assert(all[i as int].short == c && all[i as int].kind is Opt);
            return true;
        }
        proof {
            let seen = all.take(i as int);
            let wider = all.take(i + 1);
            if option_short(wider, c) {
                let k = choose|k: int|
                    0 <= k < wider.len() && (#[trigger] wider[k]).short == c
                        && wider[k].kind is Opt;
                assert(seen[k] == wider[k]);
            }
        }
        i += 1;
    }
    proof {
        assert(all.take(n as int) =~= all);
    }
    false
}

/// Lets every declaration of the short name take note of it.
pub fn sweep_short(args: &mut Vec<Arg>, c: char, next: Option<&String>)
    ensures
        models(final(args)@) == on_short(models(old(args)@), c, next.deep_view()),
{
    let ghost before = models(args@);
    let n: usize = args.len();
    let mut i: usize = 0;
    while i < n
        invariant
            i <= n,
            args@.len() == n,
            before.len() == n,
            forall|j: int|
                0 <= j < i ==> (#[trigger] args@[j])@ == on_short(before, c, next.deep_view())[j],
            forall|j: int| i <= j < n ==> (#[trigger] args@[j])@ == before[j],
        decreases n - i,
    {
        if args[i].get_short() == c {
            args[i].touch_dash(next);
        }
        i += 1;
    }
    proof {
        assert(models(args@) =~= on_short(before, c, next.deep_view()));
    }
}

/// Applies one character of a short token.
pub fn apply_short(args: &mut Vec<Arg>, c: char, next: Option<&String>) -> (r: Option<ParseExit>)
    ensures
        (Walk { args: models(final(args)@), exit: r.deep_view() }) == short_step(
            models(old(args)@),
            c,
            next.deep_view(),
        ),
{
    if c == 'h' {
        return Some(ParseExit::Help(Form::Short));
    }
    if c == 'v' {
        return Some(ParseExit::Version(Form::Short));
    }
    if let Some(v) = next {
        if is_dashed(v.as_str()) && has_option_short(args, c) {
            return Some(ParseExit::Unexpected(v.clone()));
        }
    }
    sweep_short(args, c, next);
    None
}

/// Applies the characters after the dash of a short token, from left to
/// right, up to the first that stops the walk.
pub fn apply_cluster(args: &mut Vec<Arg>, t: &str, next: Option<&String>) -> (r: Option<ParseExit>)
    requires
        dashed(t@),
    ensures
        (Walk { args: models(final(args)@), exit: r.deep_view() }) == cluster(
            models(old(args)@),
            t@.skip(1),
            next.deep_view(),
        ),
{
    let ghost before = models(args@);
    let rest = t.substring_char(1, t.unicode_len());
    let ghost cs = rest@;
    proof {
        assert(cs =~= t@.skip(1));
        assert(cs.skip(0) =~= cs);
    }
    for c in it: rest.chars()
        invariant
            it.seq() == cs,
            cs == t@.skip(1),
            before == models(old(args)@),
            cluster(models(args@), cs.skip(it.index() as int), next.deep_view()) == cluster(
                before,
                cs,
                next.deep_view(),
            ),
    {
        let ghost here = models(args@);
        let ghost left = cs.skip(it.index() as int);
        proof {
            assert(left[0] == c);
            assert(left.drop_first() =~= cs.skip(it.index() + 1));
        }
        let stop = apply_short(args, c, next);
        proof {
            let w = short_step(here, c, next.deep_view());
            assert(cluster(here, left, next.deep_view()) == (if w.exit is Some {
                w
            } else {
                cluster(w.args, left.drop_first(), next.deep_view())
            }));
        }
        if let Some(e) = stop {
            return Some(e);
        }
    }
    proof {
        assert(cs.skip(cs.len() as int).len() == 0);
    }
    None
}

/// Applies one token, with the token after it, if there is one.
pub fn apply_token(args: &mut Vec<Arg>, t: &String, next: Option<&String>) -> (r: Option<ParseExit>)
    ensures
        (Walk { args: models(final(args)@), exit: r.deep_view() }) == step(
            models(old(args)@),
            t@,
            next.deep_view(),
        ),
{
    if sweep_word(args, t, next) {
        return None;
    }
    assert(models(args@) =~= models(old(args)@));
    if let Some(name) = long_name(t.as_str()) {
        let help = "help".to_owned();
        let version = "version".to_owned();
        if name == help {
            return Some(ParseExit::Help(Form::Long));
        }
        if name == version {
            return Some(ParseExit::Version(Form::Long));
        }
        if sweep_long(args, &name, next) {
            return None;
        }
        assert(models(args@) =~= models(old(args)@));
        return Some(ParseExit::Unexpected(t.clone()));
    }
    if is_dashed(t.as_str()) {
        return apply_cluster(args, t.as_str(), next);
    }
    None
}

/// Applies all tokens, from left to right, up to the first that stops the
/// walk.
pub fn apply_tokens(args: &mut Vec<Arg>, tokens: &Vec<String>) -> (r: Option<ParseExit>)
    ensures
        (Walk { args: models(final(args)@), exit: r.deep_view() }) == run(
            models(old(args)@),
            tokens.deep_view(),
        ),
{
    let ghost before = models(args@);
    let ghost all = tokens.deep_view();
    let n: usize = tokens.len();
    let mut i: usize = 0;
    proof {
        assert(all.skip(0) =~= all);
    }
    while i < n
        invariant
            i <= n,
            n == tokens@.len(),
            all == tokens.deep_view(),
            before == models(old(args)@),
            run(models(args@), all.skip(i as int)) == run(before, all),
        decreases n - i,
    {
        let next: Option<&String> = if i + 1 < n {
            Some(&tokens[i + 1])
        } else {
            None
        };
        let ghost here = models(args@);
        let ghost rest = all.skip(i as int);
        proof {
            assert(rest[0] == tokens@[i as int]@);
            assert(rest.drop_first() =~= all.skip(i + 1));
            assert(second(rest) == next.deep_view());
        }
        let stop = apply_token(args, &tokens[i], next);
        proof {
            let w = step(here, rest[0], second(rest));
            assert(run(here, rest) == (if w.exit is Some {
                w
            } else {
                run(w.args, rest.drop_first())
            }));
        }
        if let Some(e) = stop {
            return Some(e);
        }
        i += 1;
    }
    None
}

/// The name of the first required declaration that was not seen.
pub fn first_missing(args: &Vec<Arg>) -> (r: Option<String>)
    ensures
        r.deep_view() == missing(models(args@)),
{
    let ghost all = models(args@);
    let n: usize = args.len();
    let mut i: usize = 0;
    proof {
        assert(all.skip(0) =~= all);
    }
    while i < n
        invariant
            i <= n,
            args@.len() == n,
            all == models(args@),
            missing(all.skip(i as int)) == missing(all),
        decreases n - i,
    {
        proof {
            let rest = all.skip(i as int);
            assert(rest[0] == args@[i as int]@);
            assert(rest.drop_first() =~= all.skip(i + 1));
        }
        if args[i].is_required() && !args[i].is_set() {
            return Some(args[i].get_name().clone());
        }
        i += 1;
    }
    None
}

/// The first place that holds the long name.
pub fn locate(args: &Vec<Arg>, name: &String) -> (r: Option<usize>)
    ensures
        position(models(args@), name@) == (match r {
            Some(i) => Some(i as int),
            None => None,
        }),
{
    let ghost all = models(args@);
    let n: usize = args.len();
    let mut i: usize = 0;
    while i < n
        invariant
            i <= n,
            n == args@.len(),
            all == models(args@),
            forall|j: int| 0 <= j < i ==> (#[trigger] all[j]).name != name@,
        decreases n - i,
    {
        if *args[i].get_name() == *name {
            proof {
                position_found(all, name@, i as int);
            }
            return Some(i);
        }
        i += 1;
    }
    proof {
        position_none(all, name@);
    }
    None
}

/// Registers one declaration: it takes the place of the declaration of the
/// same name, or comes last.
pub fn enroll(args: &mut Vec<Arg>, a: Arg)
    ensures
        models(final(args)@) == register(models(old(args)@), a@),
{
    let ghost before = args@;
    match locate(args, a.get_name()) {
        Some(i) => {
            args[i] = a;
            proof {
                assert(models(args@) =~= register(models(before), a@));
            }
        },
        None => {
            args.push(a);
            proof {
                assert(models(args@) =~= register(models(before), a@));
            }
        },
    }
}

} // verus!

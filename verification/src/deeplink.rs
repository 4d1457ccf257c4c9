//! Recognising `ple7://` deep links among the program's arguments.

use vstd::prelude::*;
use crate::text::{chars_start_with, has_prefix, str_chars};

verus! {

/// `s` is a deep link: it begins with `ple7://`.
pub open spec fn is_deep_link(s: Seq<char>) -> bool {
    has_prefix(s, "ple7://"@)
}

/// The first deep link among `args[i..]`.
pub open spec fn first_deep_link_from(args: Seq<Seq<char>>, i: int) -> Option<Seq<char>>
    decreases args.len() - i,
{
    if i < 0 || i >= args.len() {
        None
    } else if is_deep_link(args[i]) {
        Some(args[i])
    } else {
        first_deep_link_from(args, i + 1)
    }
}

proof fn lemma_first_from_is_least(args: Seq<Seq<char>>, i: int, j: int)
    requires
        0 <= i <= j < args.len(),
        is_deep_link(args[j]),
        forall|k: int| i <= k < j ==> !is_deep_link(#[trigger] args[k]),
    ensures
        first_deep_link_from(args, i) == Some(args[j]),
    decreases j - i,
{
    if i < j {
        lemma_first_from_is_least(args, i + 1, j);
    }
}

proof fn lemma_first_from_none(args: Seq<Seq<char>>, i: int)
    requires
        0 <= i,
    ensures
        first_deep_link_from(args, i) is None <==> forall|j: int|
            i <= j < args.len() ==> !is_deep_link(#[trigger] args[j]),
    decreases args.len() - i,
{
    if i < args.len() {
        lemma_first_from_none(args, i + 1);
    }
}

/// The deep link found among the startup arguments is the first argument
/// after the program name that begins with `ple7://`: if `args[j]` (with
/// `j >= 1`) is a deep link and none of `args[1..j]` is, it is `args[j]`.
pub proof fn lemma_startup_deep_link_is_first(args: Seq<Seq<char>>, j: int)
    requires
        1 <= j < args.len(),
        is_deep_link(args[j]),
        forall|k: int| 1 <= k < j ==> !is_deep_link(#[trigger] args[k]),
    ensures
        first_deep_link_from(args, 1) == Some(args[j]),
{
    lemma_first_from_is_least(args, 1, j);
}

/// No deep link is found exactly when no argument after the program name
/// begins with `ple7://`.
pub proof fn lemma_startup_deep_link_absent(args: Seq<Seq<char>>)
    ensures
        first_deep_link_from(args, 1) is None <==> forall|j: int|
            1 <= j < args.len() ==> !is_deep_link(#[trigger] args[j]),
{
    lemma_first_from_none(args, 1);
}

/// The models of a list of strings.
pub open spec fn strings_view(args: Seq<String>) -> Seq<Seq<char>> {
    Seq::new(args.len(), |i: int| args[i]@)
}

/// Whether `s` is a deep link.
pub fn is_deep_link_text(s: &str) -> (r: bool)
    ensures
        r == is_deep_link(s@),
{
    let cs = str_chars(s);
    chars_start_with(&cs, "ple7://")
}

/// The deep link a second instance was started with: its first argument
/// after the program name, if that is a deep link.
pub fn single_instance_deep_link(args: &Vec<String>) -> (r: Option<String>)
    ensures
        match r {
            Some(u) => args@.len() > 1 && is_deep_link(args@[1]@) && u@ == args@[1]@,
            None => !(args@.len() > 1 && is_deep_link(args@[1]@)),
        },
{
    if args.len() > 1 && is_deep_link_text(args[1].as_str()) {
        Some(args[1].clone())
    } else {
        None
    }
}

/// The first deep link among the startup arguments after the program name.
pub fn startup_deep_link(args: &Vec<String>) -> (r: Option<String>)
    ensures
        match r {
            Some(u) => first_deep_link_from(strings_view(args@), 1) == Some(u@),
            None => first_deep_link_from(strings_view(args@), 1) is None,
        },
{
    let ghost sv = strings_view(args@);
    let mut i: usize = 1;
    if args.len() == 0 {
        return None;
    }
    while i < args.len()
        invariant
            1 <= i <= args.len(),
            sv == strings_view(args@),
            first_deep_link_from(sv, 1) == first_deep_link_from(sv, i as int),
        decreases args.len() - i,
    {
        assert(sv[i as int] == args@[i as int]@);
        if is_deep_link_text(args[i].as_str()) {
            return Some(args[i].clone());
        }
        i = i + 1;
    }
    None
}

} // verus!

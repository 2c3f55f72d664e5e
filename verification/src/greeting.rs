//! The greeting command: a fixed sentence around the caller's name.

use vstd::prelude::*;
use vstd::string::*;

verus! {

/// What stands before the name in a greeting.
pub open spec fn greeting_prefix() -> Seq<char> {
    "Hello, "@
}

/// What stands after the name in a greeting.
pub open spec fn greeting_suffix() -> Seq<char> {
    "! You've been greeted from Rust!"@
}

/// The greeting for `name`: prefix, name, suffix, and nothing else.
pub open spec fn greeting_text(name: Seq<char>) -> Seq<char> {
    greeting_prefix() + name + greeting_suffix()
}

/// `needle` occurs in `hay` as a contiguous run of characters.
pub open spec fn contains_text(hay: Seq<char>, needle: Seq<char>) -> bool {
    exists|i: int|
        0 <= i && i + needle.len() <= hay.len() && #[trigger] hay.subrange(
            i,
            i + needle.len(),
        ) == needle
}

/// The lengths of the two fixed parts of a greeting.
pub proof fn lemma_greeting_parts_len()
    ensures
        greeting_prefix().len() == 7,
        greeting_suffix().len() == 32,
{
    reveal_strlit("Hello, ");
    reveal_strlit("! You've been greeted from Rust!");
}

/// Every greeting holds the name it was made for, right after the prefix,
/// and is longer than the name by the two fixed parts.
pub proof fn lemma_greeting_contains_name(name: Seq<char>)
    ensures
        greeting_text(name).len() == name.len() + 39,
        greeting_text(name).subrange(7, 7 + name.len() as int) == name,
        contains_text(greeting_text(name), name),
{
    lemma_greeting_parts_len();
    let g = greeting_text(name);
    assert(g.subrange(7, 7 + name.len() as int) =~= name);
}

/// Greets `name` with the fixed sentence.
pub fn greet(name: &str) -> (greeting: String)
    ensures
        greeting@ == greeting_text(name@),
        contains_text(greeting@, name@),
{
    let mut greeting = String::from_str("Hello, ");
    greeting.append(name);
    greeting.append("! You've been greeted from Rust!");
    proof {
        lemma_greeting_contains_name(name@);
    }
    greeting
}

} // verus!

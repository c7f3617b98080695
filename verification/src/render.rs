//! Rendering of visited entries: an indentation of two spaces per depth
//! level, followed by the entry's name, and for values a trailing `" = "`.

use vstd::prelude::*;

verus! {

/// The indentation prefix for a given traversal depth: two spaces per level.
pub open spec fn indent_chars(depth: nat) -> Seq<char>
    decreases depth,
{
    if depth == 0 {
        Seq::empty()
    } else {
        indent_chars((depth - 1) as nat) + "  "@
    }
}

/// The indentation is two characters per depth level.
pub proof fn lemma_indent_chars_len(depth: nat)
    ensures
        indent_chars(depth).len() == 2 * depth,
    decreases depth,
{
    if depth > 0 {
        lemma_indent_chars_len((depth - 1) as nat);
        reveal_strlit("  ");
    }
}

/// The rendered line for a key visited at a given depth.
pub open spec fn key_line(depth: nat, name: Seq<char>) -> Seq<char> {
    indent_chars(depth) + name
}

/// The rendered line for a value listed at a given depth: the payload is out
/// of scope, so only the name and the `" = "` marker appear.
pub open spec fn value_line(depth: nat, name: Seq<char>) -> Seq<char> {
    indent_chars(depth) + name + " = "@
}

/// Builds the two-spaces-per-level indentation for a depth.
pub fn indent(depth: usize) -> (r: String)
    ensures
        r@ == indent_chars(depth as nat),
{
    let mut s = String::new();
    let mut i: usize = 0;
    while i < depth
        invariant
            i <= depth,
            s@ == indent_chars(i as nat),
        decreases depth - i,
    {
        s.append("  ");
        i = i + 1;
    }
    s
}

} // verus!

//! The navigator's general laws, stated over the listing and resolution
//! specifications and proved for every tree.

use vstd::prelude::*;
use vstd::multiset::Multiset;
use vstd::seq_lib::lemma_multiset_commutative;
use crate::render::value_line;
use crate::tree::{
    KeyNode, find_child_from, key_listing, listing_from, resolve_path, value_lines,
};
use crate::request::run_output;

verus! {

broadcast use vstd::std_specs::vec::axiom_vec_index_decreases;

proof fn lemma_flat_listing(cs: Vec<KeyNode>, i: int, depth: nat)
    requires
        0 <= i <= cs.len(),
    ensures
        listing_from(cs, i, depth, false).len() == cs.len() - i,
        forall|k: int|
            i <= k < cs.len() ==> listing_from(cs, i, depth, false)[k - i] == (
                depth,
                cs[k].name@,
            ),
    decreases cs.len() - i,
{
    if i < cs.len() {
        lemma_flat_listing(cs, i + 1, depth);
        assert(listing_from(cs, i, depth, false) =~= seq![(depth, cs[i].name@)] + listing_from(
            cs,
            i + 1,
            depth,
            false,
        ));
    }
}

/// A non-recursive listing shows exactly the immediate children, each at
/// depth zero, in the order the child cursor yields them.
pub proof fn lemma_nonrecursive_listing_is_children(t: KeyNode)
    ensures
        key_listing(t, false).len() == t.subkeys.len(),
        forall|k: int|
            0 <= k < t.subkeys.len() ==> key_listing(t, false)[k] == (0nat, t.subkeys[k].name@),
{
    lemma_flat_listing(t.subkeys, 0, 0);
}

/// The bag of keys reachable below the children `cs[i..]`, each tagged with
/// its ancestor count measured from the listing's start node; being a bag, it
/// carries no visiting order.
pub open spec fn subtree_key_bag(cs: Vec<KeyNode>, i: int, depth: nat) -> Multiset<
    (nat, Seq<char>),
>
    decreases cs, cs.len() - i,
{
    if i < 0 || i >= cs.len() {
        Multiset::empty()
    } else {
        Multiset::empty().insert((depth, cs[i].name@)).add(
            subtree_key_bag(cs[i].subkeys, 0, depth + 1),
        ).add(subtree_key_bag(cs, i + 1, depth))
    }
}

proof fn lemma_listing_bag(cs: Vec<KeyNode>, i: int, depth: nat)
    ensures
        listing_from(cs, i, depth, true).to_multiset() == subtree_key_bag(cs, i, depth),
    decreases cs, cs.len() - i,
{
    broadcast use vstd::seq_lib::group_to_multiset_ensures;

    if i < 0 || i >= cs.len() {
        assert(listing_from(cs, i, depth, true).to_multiset() =~= subtree_key_bag(cs, i, depth));
    } else {
        let head = seq![(depth, cs[i].name@)];
        let sub = listing_from(cs[i].subkeys, 0, depth + 1, true);
        let rest = listing_from(cs, i + 1, depth, true);
        lemma_listing_bag(cs[i].subkeys, 0, depth + 1);
        lemma_listing_bag(cs, i + 1, depth);
        lemma_multiset_commutative(head + sub, rest);
        lemma_multiset_commutative(head, sub);
        assert(head =~= Seq::<(nat, Seq<char>)>::empty().push((depth, cs[i].name@)));
        assert(head.to_multiset() =~= Multiset::empty().insert((depth, cs[i].name@)));
        assert(listing_from(cs, i, depth, true).to_multiset() =~= subtree_key_bag(cs, i, depth));
    }
}

/// A recursive listing visits every key reachable from the start node exactly
/// once, at a depth equal to its ancestor count from that node: as a bag, the
/// listing equals the tree's reachable-key bag. The visiting order, pre-order
/// with each child before its own subtree before its next sibling, is the
/// listing's definition.
pub proof fn lemma_recursive_listing_visits_each_key_once(t: KeyNode)
    ensures
        key_listing(t, true).to_multiset() == subtree_key_bag(t.subkeys, 0, 0),
{
    lemma_listing_bag(t.subkeys, 0, 0);
}

/// Resolving an empty segment sequence returns the start node unchanged.
pub proof fn lemma_empty_path_resolves_to_start(t: KeyNode)
    ensures
        resolve_path(t, Seq::empty()) == Some(t),
{
}

/// Resolution walks one segment at a time: with a first segment it descends
/// into the first child of matching name and resolves the remaining segments
/// from there, and it fails as soon as no child matches.
pub proof fn lemma_resolution_is_sequential_matching(t: KeyNode, path: Seq<Seq<char>>)
    requires
        path.len() > 0,
    ensures
        resolve_path(t, path) == match find_child_from(t.subkeys, path[0], 0) {
            None => None::<KeyNode>,
            Some(c) => resolve_path(c, path.drop_first()),
        },
{
    match find_child_from(t.subkeys, path[0], 0) {
        None => {
        },
        Some(c) => {
            lemma_resolve_shift(c, path, 1);
        },
    }
}

proof fn lemma_resolve_shift(t: KeyNode, path: Seq<Seq<char>>, j: int)
    requires
        1 <= j <= path.len(),
    ensures
        crate::tree::resolve_path_from(t, path, j) == crate::tree::resolve_path_from(
            t,
            path.drop_first(),
            j - 1,
        ),
    decreases path.len() - j,
{
    if j < path.len() {
        assert(path.drop_first()[j - 1] == path[j]);
        match find_child_from(t.subkeys, path[j], 0) {
            None => {
            },
            Some(c) => {
                lemma_resolve_shift(c, path, j + 1);
            },
        }
    }
}

proof fn lemma_match_from(cs: Vec<KeyNode>, name: Seq<char>, i: int, k: int)
    requires
        0 <= i <= k < cs.len(),
        cs[k].name@ == name,
        forall|j: int| i <= j < k ==> cs[j].name@ != name,
    ensures
        find_child_from(cs, name, i) == Some(cs[k]),
    decreases k - i,
{
    if i < k {
        lemma_match_from(cs, name, i + 1, k);
    }
}

/// When several children carry the same name, a segment resolves to the first
/// match in child-enumeration order, with no disambiguation.
pub proof fn lemma_first_match_wins(cs: Vec<KeyNode>, name: Seq<char>, k: int)
    requires
        0 <= k < cs.len(),
        cs[k].name@ == name,
        forall|j: int| 0 <= j < k ==> cs[j].name@ != name,
    ensures
        find_child_from(cs, name, 0) == Some(cs[k]),
{
    lemma_match_from(cs, name, 0, k);
}

proof fn lemma_no_match_from(cs: Vec<KeyNode>, name: Seq<char>, i: int)
    requires
        0 <= i <= cs.len(),
        forall|j: int| i <= j < cs.len() ==> cs[j].name@ != name,
    ensures
        find_child_from(cs, name, i) is None,
    decreases cs.len() - i,
{
    if i < cs.len() {
        lemma_no_match_from(cs, name, i + 1);
    }
}

/// A segment with no matching child makes the whole lookup a not-found.
pub proof fn lemma_no_match_is_not_found(cs: Vec<KeyNode>, name: Seq<char>)
    requires
        forall|j: int| 0 <= j < cs.len() ==> cs[j].name@ != name,
    ensures
        find_child_from(cs, name, 0) is None,
{
    lemma_no_match_from(cs, name, 0);
}

/// A value listing draws every line from the node's own value entries, one
/// line per entry in cursor order; entries from the child-key cursor never
/// appear in it.
pub proof fn lemma_value_lines_come_from_values(t: KeyNode, depth: nat)
    ensures
        value_lines(t, depth).len() == t.values.len(),
        forall|k: int|
            0 <= k < t.values.len() ==> value_lines(t, depth)[k] == value_line(
                depth,
                t.values[k].name@,
            ),
{
}

/// A values-only run never recurses: its output does not depend on the
/// recursion toggle.
pub proof fn lemma_values_only_ignores_recursive(
    root: KeyNode,
    path: Option<Seq<Seq<char>>>,
    recursive_a: bool,
    recursive_b: bool,
)
    ensures
        run_output(root, path, recursive_a, true) == run_output(root, path, recursive_b, true),
{
}

} // verus!

//! The registry key tree and the navigator's core: path resolution by exact
//! child-name matching, pre-order depth-first key listing with an optional
//! recursion toggle, and listing of the value names attached to one key.

use vstd::prelude::*;
use crate::render::{indent_chars, key_line, value_line, indent};

verus! {

broadcast use vstd::std_specs::vec::axiom_vec_index_decreases;

/// A named value attached to a key; its payload is out of scope here.
pub struct ValueEntry {
    pub name: String,
}

/// A node of the registry key tree: its name, its child keys in child-cursor
/// order, and its value entries in value-cursor order.
pub struct KeyNode {
    pub name: String,
    pub subkeys: Vec<KeyNode>,
    pub values: Vec<ValueEntry>,
}

/// The (depth, name) pairs emitted for the children `cs[i..]`, each listed at
/// `depth`; with `recursive`, a child's whole subtree follows it one level
/// deeper before its next sibling (pre-order).
pub open spec fn listing_from(cs: Vec<KeyNode>, i: int, depth: nat, recursive: bool) -> Seq<
    (nat, Seq<char>),
>
    decreases cs, cs.len() - i,
{
    if i < 0 || i >= cs.len() {
        Seq::empty()
    } else {
        seq![(depth, cs[i].name@)] + (if recursive {
            listing_from(cs[i].subkeys, 0, depth + 1, recursive)
        } else {
            Seq::empty()
        }) + listing_from(cs, i + 1, depth, recursive)
    }
}

/// The (depth, name) pairs of a whole listing of `t`: `t`'s children at depth
/// zero, and, when `recursive`, every deeper key below the child it belongs to.
pub open spec fn key_listing(t: KeyNode, recursive: bool) -> Seq<(nat, Seq<char>)> {
    listing_from(t.subkeys, 0, 0, recursive)
}

/// The rendered line of each listed (depth, name) pair.
pub open spec fn rendered_keys(entries: Seq<(nat, Seq<char>)>) -> Seq<Seq<char>> {
    entries.map(|i: int, e: (nat, Seq<char>)| key_line(e.0, e.1))
}

/// The (depth, name) pairs that a vector of emitted entries stands for.
pub open spec fn entry_views(entries: Seq<(usize, String)>) -> Seq<(nat, Seq<char>)> {
    entries.map(|i: int, e: (usize, String)| (e.0 as nat, e.1@))
}

/// The rendered value lines of `t` at a depth: one line per value entry, in
/// value-cursor order; child keys never appear here.
pub open spec fn value_lines(t: KeyNode, depth: nat) -> Seq<Seq<char>> {
    t.values@.map(|i: int, v: ValueEntry| value_line(depth, v.name@))
}

/// The first child in `cs[i..]` whose name equals `name`, if any.
pub open spec fn find_child_from(cs: Vec<KeyNode>, name: Seq<char>, i: int) -> Option<KeyNode>
    decreases cs.len() - i,
{
    if i < 0 || i >= cs.len() {
        None
    } else if cs[i].name@ == name {
        Some(cs[i])
    } else {
        find_child_from(cs, name, i + 1)
    }
}

/// The node reached from `t` by matching the segments `path[j..]` in order,
/// each against the then-current node's children, first match taken; `None`
/// as soon as one segment has no matching child.
pub open spec fn resolve_path_from(t: KeyNode, path: Seq<Seq<char>>, j: int) -> Option<KeyNode>
    decreases path.len() - j,
{
    if j < 0 || j >= path.len() {
        Some(t)
    } else {
        match find_child_from(t.subkeys, path[j], 0) {
            None => None,
            Some(c) => resolve_path_from(c, path, j + 1),
        }
    }
}

/// The node reached from `t` by the whole segment sequence; an empty sequence
/// resolves to `t` itself.
pub open spec fn resolve_path(t: KeyNode, path: Seq<Seq<char>>) -> Option<KeyNode> {
    resolve_path_from(t, path, 0)
}

/// Mapping a rendered line over a concatenation of listings splits into the
/// two rendered parts.
pub proof fn lemma_rendered_keys_concat(a: Seq<(nat, Seq<char>)>, b: Seq<(nat, Seq<char>)>)
    ensures
        rendered_keys(a + b) == rendered_keys(a) + rendered_keys(b),
{
    assert(rendered_keys(a + b) =~= rendered_keys(a) + rendered_keys(b)) by {
        assert forall|i: int| 0 <= i < a.len() + b.len() implies rendered_keys(a + b)[i] == (
        rendered_keys(a) + rendered_keys(b))[i] by {
            if i < a.len() {
                assert((a + b)[i] == a[i]);
            } else {
                assert((a + b)[i] == b[i - a.len()]);
            }
        }
    }
}

impl KeyNode {
    /// Resolves a path: each segment is matched, case-sensitively and in
    /// child order, against the current node's children, and the first match
    /// is descended into; `None` when some segment has no matching child.
    pub fn find_node<'a>(&'a self, path: &Vec<String>) -> (r: Option<&'a KeyNode>)
        ensures
            match resolve_path(*self, path.deep_view()) {
                Some(t) => r matches Some(n) && *n == t,
                None => r is None,
            },
    {
        let ghost pathv = path.deep_view();
        let mut cur: &KeyNode = self;
        let mut j: usize = 0;
        while j < path.len()
            invariant
                j <= path.len(),
                pathv == path.deep_view(),
                pathv.len() == path.len(),
                resolve_path(*self, pathv) == resolve_path_from(*cur, pathv, j as int),
            decreases path.len() - j,
        {
            let segment: &String = &path[j];
            assert(segment@ == pathv[j as int]);
            let mut i: usize = 0;
            let mut advanced: bool = false;
            while i < cur.subkeys.len()
                invariant_except_break
                    i <= cur.subkeys.len(),
                    !advanced,
                    j < pathv.len(),
                    segment@ == pathv[j as int],
                    resolve_path(*self, pathv) == resolve_path_from(*cur, pathv, j as int),
                    find_child_from(cur.subkeys, pathv[j as int], 0) == find_child_from(
                        cur.subkeys,
                        pathv[j as int],
                        i as int,
                    ),
                ensures
                    advanced ==> resolve_path(*self, pathv) == resolve_path_from(
                        *cur,
                        pathv,
                        j + 1,
                    ),
                    !advanced ==> resolve_path(*self, pathv) is None,
                decreases cur.subkeys.len() - i,
            {
                if cur.subkeys[i].name == *segment {
                    assert(find_child_from(cur.subkeys, pathv[j as int], i as int) == Some(
                        cur.subkeys[i as int],
                    ));
                    cur = &cur.subkeys[i];
                    advanced = true;
                    break ;
                }
                i = i + 1;
            }
            if !advanced {
                return None;
            }
            j = j + 1;
        }
        Some(cur)
    }

    /// Appends to `out` the rendered key lines for this node's children:
    /// each child at `depth`, and, when `recursive`, its whole subtree one
    /// level deeper before the next sibling (pre-order).
    fn push_key_lines(
        &self,
        pad: &str,
        Ghost(depth): Ghost<nat>,
        recursive: bool,
        out: &mut Vec<String>,
    )
        requires
            pad@ == indent_chars(depth),
        ensures
            final(out).deep_view() == old(out).deep_view() + rendered_keys(
                listing_from(self.subkeys, 0, depth, recursive),
            ),
        decreases *self,
    {
        let mut i: usize = 0;
        while i < self.subkeys.len()
            invariant
                i <= self.subkeys.len(),
                pad@ == indent_chars(depth),
                out.deep_view() + rendered_keys(
                    listing_from(self.subkeys, i as int, depth, recursive),
                ) == old(out).deep_view() + rendered_keys(
                    listing_from(self.subkeys, 0, depth, recursive),
                ),
            decreases self.subkeys.len() - i,
        {
            let ghost entries = listing_from(self.subkeys, i as int, depth, recursive);
            let ghost sub = if recursive {
                listing_from(self.subkeys[i as int].subkeys, 0, depth + 1, recursive)
            } else {
                Seq::empty()
            };
            let ghost head = seq![(depth, self.subkeys[i as int].name@)];
            let ghost rest = listing_from(self.subkeys, i as int + 1, depth, recursive);
            let ghost out0 = out.deep_view();

            let child = &self.subkeys[i];
            let mut line = String::from_str(pad);
            line.append(child.name.as_str());
            out.push(line);
            proof {
                assert(out.deep_view() =~= out0 + seq![key_line(depth, child.name@)]);
                assert(rendered_keys(head) =~= seq![key_line(depth, child.name@)]);
            }
            if recursive {
                let mut deeper = String::from_str(pad);
                deeper.append("  ");
                child.push_key_lines(deeper.as_str(), Ghost(depth + 1), recursive, out);
            }
            proof {
                lemma_rendered_keys_concat(head + sub, rest);
                lemma_rendered_keys_concat(head, sub);
                assert(entries == (head + sub) + rest);
                if !recursive {
                    assert(rendered_keys(sub) =~= Seq::<Seq<char>>::empty());
                    assert(out.deep_view() =~= out0 + rendered_keys(head) + rendered_keys(sub));
                }
                assert(out.deep_view() + rendered_keys(rest) =~= out0 + rendered_keys(entries));
            }
            i = i + 1;
        }
        proof {
            assert(rendered_keys(listing_from(self.subkeys, i as int, depth, recursive))
                =~= Seq::<Seq<char>>::empty());
            assert(final(out).deep_view() =~= old(out).deep_view() + rendered_keys(
                listing_from(self.subkeys, 0, depth, recursive),
            ));
        }
    }

    /// Appends to `out` one (depth, name) pair per key visited below this
    /// node, in the same pre-order as the rendered listing.
    fn push_key_entries(
        &self,
        pad: &str,
        Ghost(depth): Ghost<nat>,
        recursive: bool,
        out: &mut Vec<(usize, String)>,
    )
        requires
            pad@ == indent_chars(depth),
        ensures
            entry_views(final(out)@) == entry_views(old(out)@) + listing_from(
                self.subkeys,
                0,
                depth,
                recursive,
            ),
        decreases *self,
    {
        let l = pad.unicode_len();
        proof {
            crate::render::lemma_indent_chars_len(depth);
        }
        let d: usize = l / 2;
        let mut i: usize = 0;
        while i < self.subkeys.len()
            invariant
                i <= self.subkeys.len(),
                pad@ == indent_chars(depth),
                d as nat == depth,
                entry_views(out@) + listing_from(self.subkeys, i as int, depth, recursive)
                    == entry_views(old(out)@) + listing_from(self.subkeys, 0, depth, recursive),
            decreases self.subkeys.len() - i,
        {
            let ghost entries = listing_from(self.subkeys, i as int, depth, recursive);
            let ghost sub = if recursive {
                listing_from(self.subkeys[i as int].subkeys, 0, depth + 1, recursive)
            } else {
                Seq::empty()
            };
            let ghost head = seq![(depth, self.subkeys[i as int].name@)];
            let ghost rest = listing_from(self.subkeys, i as int + 1, depth, recursive);
            let ghost out0 = out@;

            let child = &self.subkeys[i];
            out.push((d, child.name.clone()));
            proof {
                assert(entry_views(out@) =~= entry_views(out0) + head);
            }
            if recursive {
                let mut deeper = String::from_str(pad);
                deeper.append("  ");
                child.push_key_entries(deeper.as_str(), Ghost(depth + 1), recursive, out);
            }
            proof {
                assert(entries == (head + sub) + rest);
                if !recursive {
                    assert(sub =~= Seq::<(nat, Seq<char>)>::empty());
                }
                assert(entry_views(out@) =~= entry_views(out0) + (head + sub));
                assert(entry_views(out@) + rest =~= entry_views(out0) + entries);
            }
            i = i + 1;
        }
        proof {
            assert(listing_from(self.subkeys, i as int, depth, recursive) =~= Seq::<
                (nat, Seq<char>),
            >::empty());
            assert(entry_views(final(out)@) =~= entry_views(old(out)@) + listing_from(
                self.subkeys,
                0,
                depth,
                recursive,
            ));
        }
    }

    /// Enumerates the keys visited by a listing of this node as (depth, name)
    /// pairs: the immediate children at depth zero, and, when `recursive`,
    /// every reachable key, pre-order, at its ancestor count from this node.
    pub fn enumerate_keys(&self, recursive: bool) -> (r: Vec<(usize, String)>)
        ensures
            entry_views(r@) == key_listing(*self, recursive),
    {
        let mut out: Vec<(usize, String)> = Vec::new();
        proof {
            reveal_strlit("");
            assert(""@ =~= indent_chars(0));
        }
        self.push_key_entries("", Ghost(0nat), recursive, &mut out);
        proof {
            assert(entry_views(out@) =~= key_listing(*self, recursive));
        }
        out
    }

    /// Lists this node's subkeys as rendered lines: the immediate children,
    /// and, when `recursive`, every deeper key, pre-order, indented two
    /// spaces per depth level.
    pub fn list_keys(&self, recursive: bool) -> (r: Vec<String>)
        ensures
            r.deep_view() == rendered_keys(key_listing(*self, recursive)),
    {
        let mut out: Vec<String> = Vec::new();
        proof {
            reveal_strlit("");
            assert(""@ =~= indent_chars(0));
        }
        self.push_key_lines("", Ghost(0nat), recursive, &mut out);
        proof {
            assert(out.deep_view() =~= rendered_keys(key_listing(*self, recursive)));
        }
        out
    }

    /// Lists the value names attached directly to this node, in value-cursor
    /// order, each rendered as `"<indent><name> = "`; never recurses into
    /// child keys.
    pub fn list_values(&self, depth: usize) -> (r: Vec<String>)
        ensures
            r.deep_view() == value_lines(*self, depth as nat),
    {
        let pad = indent(depth);
        let mut out: Vec<String> = Vec::new();
        let mut i: usize = 0;
        while i < self.values.len()
            invariant
                i <= self.values.len(),
                pad@ == indent_chars(depth as nat),
                out.deep_view() =~= value_lines(*self, depth as nat).subrange(0, i as int),
            decreases self.values.len() - i,
        {
            let ghost out0 = out.deep_view();
            let mut line = String::from_str(pad.as_str());
            line.append(self.values[i].name.as_str());
            line.append(" = ");
            proof {
                assert(line@ =~= value_line(depth as nat, self.values[i as int].name@));
            }
            out.push(line);
            proof {
                assert(out.deep_view() =~= out0 + seq![line@]);
                assert(out.deep_view() =~= value_lines(*self, depth as nat).subrange(
                    0,
                    i as int + 1,
                ));
            }
            i = i + 1;
        }
        proof {
            assert(out.deep_view() =~= value_lines(*self, depth as nat));
        }
        out
    }
}

} // verus!

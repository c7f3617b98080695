//! Run orchestration: one immutable request — the tree's root, an optional
//! start path, and the recursion and values-only toggles — and the single
//! entry point that produces the run's whole output.

use vstd::prelude::*;
use crate::tree::{KeyNode, key_listing, rendered_keys, resolve_path, value_lines};

verus! {

/// One traversal request: the root of the opened hive's key tree, the two
/// presentation toggles, and an optional start path of segment strings.
pub struct RegLsApp {
    pub root: KeyNode,
    pub print_recursive: bool,
    pub print_values: bool,
    pub path: Option<Vec<String>>,
}

/// The segment sequences of an optional start path.
pub open spec fn opt_path_view(path: Option<Vec<String>>) -> Option<Seq<Seq<char>>> {
    match path {
        None => None,
        Some(p) => Some(p.deep_view()),
    }
}

/// The whole output of one run: resolve the start path when one is present
/// (a failed resolution is a successful run with no output), then list either
/// the resolved key's values or its subkeys. The recursion toggle matters
/// only for a subkey listing, never for a values-only run.
pub open spec fn run_output(
    root: KeyNode,
    path: Option<Seq<Seq<char>>>,
    recursive: bool,
    values_only: bool,
) -> Seq<Seq<char>> {
    let start = match path {
        None => Some(root),
        Some(p) => resolve_path(root, p),
    };
    match start {
        None => Seq::empty(),
        Some(t) => if values_only {
            value_lines(t, 0)
        } else {
            rendered_keys(key_listing(t, recursive))
        },
    }
}

impl RegLsApp {
    /// A request over an opened tree, with both toggles off and no start path.
    pub fn new(root: KeyNode) -> (r: Self)
        ensures
            r.root == root,
            !r.print_recursive,
            !r.print_values,
            r.path is None,
    {
        Self { root, print_recursive: false, print_values: false, path: None }
    }

    /// The same request with the recursion toggle set as given.
    pub fn with_recursive(self, recursive: bool) -> (r: Self)
        ensures
            r.root == self.root,
            r.print_recursive == recursive,
            r.print_values == self.print_values,
            r.path == self.path,
    {
        Self { print_recursive: recursive, ..self }
    }

    /// The same request with the values-only toggle set as given.
    pub fn with_print_values(self, values: bool) -> (r: Self)
        ensures
            r.root == self.root,
            r.print_recursive == self.print_recursive,
            r.print_values == values,
            r.path == self.path,
    {
        Self { print_values: values, ..self }
    }

    /// The same request with the given start path.
    pub fn with_path(self, path: Vec<String>) -> (r: Self)
        ensures
            r.root == self.root,
            r.print_recursive == self.print_recursive,
            r.print_values == self.print_values,
            r.path == Some(path),
    {
        Self { path: Some(path), ..self }
    }

    /// Runs the request and returns the output lines in emission order.
    pub fn run(&self) -> (r: Vec<String>)
        ensures
            r.deep_view() == run_output(
                self.root,
                opt_path_view(self.path),
                self.print_recursive,
                self.print_values,
            ),
    {
        let start: &KeyNode = match &self.path {
            None => &self.root,
            Some(p) => {
                match self.root.find_node(p) {
                    None => {
                        let out: Vec<String> = Vec::new();
                        proof {
                            assert(out.deep_view() =~= Seq::<Seq<char>>::empty());
                        }
                        return out;
                    },
                    Some(n) => n,
                }
            },
        };
        if self.print_values {
            start.list_values(0)
        } else {
            start.list_keys(self.print_recursive)
        }
    }
}

} // verus!

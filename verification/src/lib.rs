//! A verified navigator over a registry-hive key tree: path resolution by
//! exact child-name matching, pre-order depth-first key listing with an
//! optional recursion toggle, and listing of the value names attached to a
//! key, each entry rendered with two spaces of indentation per depth level.

pub mod laws;
pub mod path;
pub mod render;
pub mod request;
pub mod tree;

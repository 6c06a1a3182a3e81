//! A statically shaped document tree with two traversals: `visit` walks one
//! snapshot, `diff` walks a snapshot against an ancestor of the same shape.
//! Consumers implement the visitor and differ traits; the tree hands them
//! events in declaration order and never compares dynamic content itself.

pub mod attr;
pub mod node;

//! A pluggable lint-pass engine.
//!
//! A run takes a typed syntax tree, walks it once in pre-order and applies
//! every registered rule to every node it visits. Nodes that come from macro
//! expansion are hidden from rules that did not opt in. What the rules find is
//! recorded, in order, by a diagnostic sink.

pub mod node;
pub mod predicate;
pub mod diagnostic;
pub mod rule;
pub mod builtin;
pub mod registry;
pub mod engine;

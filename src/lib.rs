//! Extracts the named definitions (classes, modules, methods, accessors,
//! typed properties and constant assignments) of a parsed Ruby syntax tree,
//! attaching to each method-like definition the `sig` block that precedes it.

pub mod tree;
pub mod types;
pub mod definitions;
pub mod laws;

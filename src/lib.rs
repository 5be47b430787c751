//! Locates the basic blocks of a function's control-flow graph whose
//! instructions come from `unsafe` blocks of its syntax tree.
pub mod span;
pub mod hir;
pub mod walk;
pub mod extract;
pub mod correlate;
pub mod defs;
pub mod analyze;
pub mod laws;

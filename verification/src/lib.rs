//! Whole-program call-graph construction over a fully type-checked
//! program unit: an entity registry, a single-pass traversal with
//! enclosing-function context tracking, call-site classification
//! (static vs. dynamic dispatch), and declaration-to-implementation
//! linking, together with the argument-scanning and target-selection
//! decisions of the surrounding driver.

pub mod args;
pub mod driver;
pub mod dump;
pub mod laws;
pub mod package;
pub mod registry;
pub mod span;
pub mod sysroot;
pub mod target;
pub mod text;
pub mod unit;
pub mod visitor;

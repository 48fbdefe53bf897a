//! The two dispatch decisions of the driver binary: which mode its
//! first argument selects, and which of the two underlying tools a
//! build-wrapper invocation must run.

use vstd::prelude::*;
use crate::text::{spec_is_suffix, str_ends_with, str_eq};

verus! {

/// How the driver was invoked.
#[derive(Clone, Copy, PartialEq, Eq, Structural, Debug)]
pub enum DriverMode {
    /// Invoked as the build tool's subcommand: enumerate targets and
    /// re-run the build with the driver set as the compiler wrapper.
    CargoCallgraph,
    /// Invoked by the build tool as the compiler wrapper: dispatch to
    /// the analyzer and/or the real compiler.
    RustcWrapper,
    /// Anything else: refused with an error message.
    Unsupported,
}

/// The mode the first argument selects.
pub open spec fn spec_driver_mode(first: Seq<char>) -> DriverMode {
    if first == "callgraph"@ {
        DriverMode::CargoCallgraph
    } else if spec_is_suffix("rustc"@, first) {
        DriverMode::RustcWrapper
    } else {
        DriverMode::Unsupported
    }
}

/// Decides the driver's mode from its first argument: the subcommand
/// name selects subcommand mode, a path ending in the compiler's name
/// selects wrapper mode.
pub fn driver_mode(first: &str) -> (m: DriverMode)
    ensures
        m == spec_driver_mode(first@),
{
    if str_eq(first, "callgraph") {
        DriverMode::CargoCallgraph
    } else if str_ends_with(first, "rustc") {
        DriverMode::RustcWrapper
    } else {
        DriverMode::Unsupported
    }
}

/// What one compiler-wrapper invocation must run.
#[derive(Clone, Copy, PartialEq, Eq, Structural, Debug)]
pub struct RustcPlan {
    /// Run the analyzer on this crate: it is the directly targeted one.
    pub run_analyzer: bool,
    /// Run the real compiler: dependencies still need building, and a
    /// library target must also be built for its dependents.
    pub run_compiler: bool,
}

/// Decides what a compiler-wrapper invocation runs: the analyzer
/// exactly on the direct target, the real compiler on everything that
/// is not the direct target and on library crates in any case.
pub fn plan_rustc_phase(is_direct_target: bool, crate_type_is_lib: bool) -> (p: RustcPlan)
    ensures
        p.run_analyzer == is_direct_target,
        p.run_compiler == (!is_direct_target || crate_type_is_lib),
{
    RustcPlan {
        run_analyzer: is_direct_target,
        run_compiler: !is_direct_target || crate_type_is_lib,
    }
}

} // verus!

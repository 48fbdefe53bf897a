//! Classification of a build target from its kind strings, and the
//! ordering that makes library targets build before binaries.

use vstd::prelude::*;
use crate::text::str_eq;

verus! {

/// The kinds of build target the driver distinguishes.
#[derive(Clone, Copy, PartialEq, Eq, Structural, Debug)]
pub enum TargetKind {
    Library,
    Bin,
    Unknown,
}

/// Whether one kind string names a library target.
pub open spec fn spec_is_lib_kind(s: Seq<char>) -> bool {
    s == "lib"@ || s == "rlib"@ || s == "staticlib"@
}

/// The kind of a target whose kind strings are `ks`: a library when any
/// kind string names one, a binary when the first kind string is "bin",
/// unknown otherwise.
pub open spec fn spec_target_kind(ks: Seq<Seq<char>>) -> TargetKind {
    if exists|i: int| 0 <= i < ks.len() && spec_is_lib_kind(#[trigger] ks[i]) {
        TargetKind::Library
    } else if ks.len() > 0 && ks[0] == "bin"@ {
        TargetKind::Bin
    } else {
        TargetKind::Unknown
    }
}

impl TargetKind {
    /// Whether one kind string names a library target.
    pub fn is_lib_str(s: &str) -> (r: bool)
        ensures
            r == spec_is_lib_kind(s@),
    {
        str_eq(s, "lib") || str_eq(s, "rlib") || str_eq(s, "staticlib")
    }

    /// Classifies a target from its kind strings.
    pub fn from_kinds(kinds: &Vec<String>) -> (r: TargetKind)
        ensures
            r == spec_target_kind(kinds.deep_view()),
    {
        let mut i: usize = 0;
        while i < kinds.len()
            invariant
                0 <= i <= kinds.len(),
                forall|j: int| 0 <= j < i ==> !spec_is_lib_kind(#[trigger] kinds.deep_view()[j]),
            decreases kinds.len() - i,
        {
            if Self::is_lib_str(kinds[i].as_str()) {
                proof {
                    assert(spec_is_lib_kind(kinds.deep_view()[i as int]));
                }
                return TargetKind::Library;
            }
            i += 1;
        }
        if kinds.len() > 0 && str_eq(kinds[0].as_str(), "bin") {
            TargetKind::Bin
        } else {
            TargetKind::Unknown
        }
    }

    /// The sort key that puts library targets before binaries and
    /// binaries before unsupported targets.
    pub fn rank(&self) -> (r: u8)
        ensures
            self is Library ==> r == 0,
            self is Bin ==> r == 1,
            self is Unknown ==> r == 2,
    {
        match self {
            TargetKind::Library => 0,
            TargetKind::Bin => 1,
            TargetKind::Unknown => 2,
        }
    }

    /// The kind's display name.
    pub fn name_str(&self) -> (r: &'static str)
        ensures
            self is Library ==> r@ == "lib"@,
            self is Bin ==> r@ == "bin"@,
            self is Unknown ==> r@ == "unknown"@,
    {
        match self {
            TargetKind::Library => "lib",
            TargetKind::Bin => "bin",
            TargetKind::Unknown => "unknown",
        }
    }
}

} // verus!

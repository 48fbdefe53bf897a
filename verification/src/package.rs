//! Selecting the package to analyze from the build metadata: the one
//! whose manifest was asked for outright, or, with no manifest named,
//! the one whose manifest directory is the current directory.

use vstd::prelude::*;
use crate::text::str_eq;

verus! {

/// The last index at or before `i` holding `/`, or -1.
pub open spec fn spec_last_slash(p: Seq<char>, i: int) -> int
    decreases i + 1,
{
    if i < 0 || i >= p.len() {
        -1
    } else if p[i] == '/' {
        i
    } else {
        spec_last_slash(p, i - 1)
    }
}

/// The directory part of a path written as text: everything before the
/// final separator, and empty when there is none.
pub open spec fn spec_parent_dir(p: Seq<char>) -> Seq<char> {
    let k = spec_last_slash(p, p.len() - 1);
    if k < 0 {
        Seq::empty()
    } else {
        p.subrange(0, k)
    }
}

/// Whether one manifest path selects the package: equality with the
/// requested manifest when one was named, else its directory being the
/// current one.
pub open spec fn spec_manifest_matches(m: Seq<char>, req: Option<Seq<char>>, cur: Seq<char>) -> bool {
    match req {
        Some(r) => m == r,
        None => spec_parent_dir(m) == cur,
    }
}

/// The first package whose manifest matches, from `i` on.
pub open spec fn spec_find_package(
    ms: Seq<Seq<char>>,
    req: Option<Seq<char>>,
    cur: Seq<char>,
    i: int,
) -> Option<int>
    decreases ms.len() - i,
{
    if i < 0 || i >= ms.len() {
        None
    } else if spec_manifest_matches(ms[i], req, cur) {
        Some(i)
    } else {
        spec_find_package(ms, req, cur, i + 1)
    }
}

/// The directory part of a path written as text.
pub fn parent_dir(p: &str) -> (r: String)
    ensures
        r@ == spec_parent_dir(p@),
{
    let len = p.unicode_len();
    let mut i: usize = len;
    while i > 0
        invariant
            len == p@.len(),
            0 <= i <= len,
            spec_last_slash(p@, p@.len() - 1) == spec_last_slash(p@, i - 1),
        decreases i,
    {
        if p.get_char(i - 1) == '/' {
            proof {
                assert(spec_last_slash(p@, i - 1) == i - 1);
            }
            let r = p.substring_char(0, i - 1);
            return r.to_owned();
        }
        i -= 1;
    }
    proof {
        assert(spec_last_slash(p@, -1) == -1);
    }
    String::new()
}

/// Picks the package to analyze: the first whose manifest path equals
/// the requested one, or, when none was requested, the first whose
/// manifest directory is the current directory. `None` when no package
/// matches — the workspace case the driver refuses.
pub fn find_package_index(
    manifest_paths: &Vec<String>,
    requested: &Option<String>,
    current_dir: &str,
) -> (r: Option<usize>)
    ensures
        match r {
            Some(ix) => spec_find_package(
                manifest_paths.deep_view(),
                crate::sysroot::spec_opt_view(*requested),
                current_dir@,
                0,
            ) == Some(ix as int),
            None => spec_find_package(
                manifest_paths.deep_view(),
                crate::sysroot::spec_opt_view(*requested),
                current_dir@,
                0,
            ) is None,
        },
{
    let ghost req = crate::sysroot::spec_opt_view(*requested);
    let mut i: usize = 0;
    while i < manifest_paths.len()
        invariant
            0 <= i <= manifest_paths.len(),
            req == crate::sysroot::spec_opt_view(*requested),
            spec_find_package(manifest_paths.deep_view(), req, current_dir@, 0) == spec_find_package(
                manifest_paths.deep_view(),
                req,
                current_dir@,
                i as int,
            ),
        decreases manifest_paths.len() - i,
    {
        proof {
            assert(manifest_paths.deep_view()[i as int] == manifest_paths@[i as int]@);
        }
        let m = manifest_paths[i].as_str();
        let matched = match requested {
            Some(r) => str_eq(m, r.as_str()),
            None => {
                let parent = parent_dir(m);
                str_eq(parent.as_str(), current_dir)
            },
        };
        if matched {
            return Some(i);
        }
        i += 1;
    }
    None
}

} // verus!

//! The default-sysroot decision: from the build-time environment values
//! alone, which sysroot the analyzer should fall back to when no
//! `--sysroot` flag is given.

use vstd::prelude::*;
use crate::text::push_str;

verus! {

/// The first of two optional values, as `Option::or` picks it.
pub open spec fn spec_opt_or(a: Option<Seq<char>>, b: Option<Seq<char>>) -> Option<Seq<char>> {
    match a {
        Some(x) => Some(x),
        None => b,
    }
}

/// The view of an optional string.
pub open spec fn spec_opt_view(a: Option<String>) -> Option<Seq<char>> {
    match a {
        Some(x) => Some(x@),
        None => None,
    }
}

/// The default sysroot the analyzer uses when no `--sysroot` flag is
/// set, from the environment the binary was built in. Inside a compiler
/// build (`rustc_stage` set) there is none to pick: the host computes
/// its own. Under rustup or multirust, the sysroot is the toolchain
/// directory under the installation's home. Otherwise the build must
/// name one outright, so that input is required to be present here.
pub fn compile_time_sysroot(
    rustc_stage: &Option<String>,
    rustup_home: &Option<String>,
    multirust_home: &Option<String>,
    rustup_toolchain: &Option<String>,
    multirust_toolchain: &Option<String>,
    rust_sysroot: &Option<String>,
) -> (r: Option<String>)
    requires
        rustc_stage is None && !(spec_opt_or(spec_opt_view(*rustup_home), spec_opt_view(*multirust_home)) is Some
            && spec_opt_or(
            spec_opt_view(*rustup_toolchain),
            spec_opt_view(*multirust_toolchain),
        ) is Some) ==> rust_sysroot is Some,
    ensures
        rustc_stage is Some ==> r is None,
        rustc_stage is None ==> r is Some,
        ({
            let home = spec_opt_or(spec_opt_view(*rustup_home), spec_opt_view(*multirust_home));
            let toolchain = spec_opt_or(
                spec_opt_view(*rustup_toolchain),
                spec_opt_view(*multirust_toolchain),
            );
            &&& (rustc_stage is None && home is Some && toolchain is Some ==> (r matches Some(s)
                && s@ == home->0 + "/toolchains/"@ + toolchain->0))
            &&& (rustc_stage is None && !(home is Some && toolchain is Some) ==> (r matches Some(s)
                && s@ == rust_sysroot->0@))
        }),
{
    if rustc_stage.is_some() {
        return None;
    }
    let home: Option<&String> = match rustup_home {
        Some(h) => Some(h),
        None => match multirust_home {
            Some(h) => Some(h),
            None => None,
        },
    };
    let toolchain: Option<&String> = match rustup_toolchain {
        Some(t) => Some(t),
        None => match multirust_toolchain {
            Some(t) => Some(t),
            None => None,
        },
    };
    match (home, toolchain) {
        (Some(home), Some(toolchain)) => {
            let mut out = home.clone();
            push_str(&mut out, "/toolchains/");
            push_str(&mut out, toolchain.as_str());
            Some(out)
        },
        _ => {
            match rust_sysroot {
                Some(s) => Some(s.clone()),
                None => {
                    proof {
                        assert(false);
                    }
                    None
                },
            }
        },
    }
}

} // verus!

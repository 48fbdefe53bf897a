//! Scanning a command line the way the driver does: every scan stops at
//! the first `--`, a flag's value is either the following argument or
//! the text after `=` inside the same argument, and a flag spelled
//! with extra text that is not `=value` ends the scan.

use vstd::prelude::*;
use crate::target::{TargetKind, spec_is_lib_kind};
use crate::text::{spec_is_prefix, spec_is_suffix, str_ends_with, str_eq, str_starts_with};

verus! {

/// Whether an argument equal to `name` stands at or after `i`, before
/// the first `--`.
pub open spec fn spec_has_flag(args: Seq<Seq<char>>, name: Seq<char>, i: int) -> bool
    decreases args.len() - i,
{
    if i < 0 || i >= args.len() || args[i] == "--"@ {
        false
    } else {
        args[i] == name || spec_has_flag(args, name, i + 1)
    }
}

/// The value of flag `name`, scanning from `i`: the next argument when
/// the flag stands alone (none when the line or the scan ends there),
/// or the text after `=` when the flag is spelled `name=value`.
pub open spec fn spec_flag_value(args: Seq<Seq<char>>, name: Seq<char>, i: int) -> Option<
    Seq<char>,
>
    decreases args.len() - i,
{
    if i < 0 || i >= args.len() || args[i] == "--"@ {
        None
    } else if args[i] == name {
        if i + 1 < args.len() && args[i + 1] != "--"@ {
            Some(args[i + 1])
        } else {
            None
        }
    } else if spec_is_prefix(name, args[i]) && args[i].len() > name.len() && args[i][name.len() as int]
        == '=' {
        Some(args[i].subrange(name.len() as int + 1, args[i].len() as int))
    } else {
        spec_flag_value(args, name, i + 1)
    }
}

/// Whether any value of flag `name`, scanning from `i`, names a library
/// crate type. A flag spelled with extra text that is not `=value`
/// ends the scan with no; a flag alone at the very end does too.
pub open spec fn spec_any_flag_is_lib(args: Seq<Seq<char>>, name: Seq<char>, i: int) -> bool
    decreases args.len() - i,
{
    if i < 0 || i >= args.len() || args[i] == "--"@ {
        false
    } else if spec_is_prefix(name, args[i]) {
        if args[i].len() == name.len() {
            if i + 1 < args.len() && args[i + 1] != "--"@ {
                spec_is_lib_kind(args[i + 1]) || spec_any_flag_is_lib(args, name, i + 2)
            } else {
                false
            }
        } else if args[i][name.len() as int] == '=' {
            spec_is_lib_kind(args[i].subrange(name.len() as int + 1, args[i].len() as int))
                || spec_any_flag_is_lib(args, name, i + 1)
        } else {
            false
        }
    } else {
        spec_any_flag_is_lib(args, name, i + 1)
    }
}

/// The first argument ending in `.rs`, before the first `--`, from `i`.
pub open spec fn spec_first_rs(args: Seq<Seq<char>>, i: int) -> Option<Seq<char>>
    decreases args.len() - i,
{
    if i < 0 || i >= args.len() || args[i] == "--"@ {
        None
    } else if spec_is_suffix(".rs"@, args[i]) {
        Some(args[i])
    } else {
        spec_first_rs(args, i + 1)
    }
}

/// Determines whether the flag `name` is present before the first `--`.
pub fn has_arg_flag(args: &Vec<String>, name: &str) -> (r: bool)
    ensures
        r == spec_has_flag(args.deep_view(), name@, 0),
{
    let mut i: usize = 0;
    while i < args.len()
        invariant
            0 <= i <= args.len(),
            spec_has_flag(args.deep_view(), name@, 0) == spec_has_flag(
                args.deep_view(),
                name@,
                i as int,
            ),
        decreases args.len() - i,
    {
        proof {
            assert(args.deep_view()[i as int] == args@[i as int]@);
        }
        if str_eq(args[i].as_str(), "--") {
            return false;
        }
        if str_eq(args[i].as_str(), name) {
            return true;
        }
        i += 1;
    }
    false
}

/// Gets the value of the flag `name`: the following argument, or the
/// text after `=` in a `name=value` spelling.
pub fn get_arg_flag_value(args: &Vec<String>, name: &str) -> (r: Option<String>)
    ensures
        match r {
            Some(v) => spec_flag_value(args.deep_view(), name@, 0) == Some(v@),
            None => spec_flag_value(args.deep_view(), name@, 0) is None,
        },
{
    let name_len = name.unicode_len();
    let mut i: usize = 0;
    while i < args.len()
        invariant
            0 <= i <= args.len(),
            name_len == name@.len(),
            spec_flag_value(args.deep_view(), name@, 0) == spec_flag_value(
                args.deep_view(),
                name@,
                i as int,
            ),
        decreases args.len() - i,
    {
        proof {
            assert(args.deep_view()[i as int] == args@[i as int]@);
            if i + 1 < args.len() {
                assert(args.deep_view()[i + 1 as int] == args@[i + 1 as int]@);
            }
        }
        let arg = args[i].as_str();
        if str_eq(arg, "--") {
            return None;
        }
        if str_eq(arg, name) {
            if i + 1 < args.len() {
                if str_eq(args[i + 1].as_str(), "--") {
                    return None;
                }
                return Some(args[i + 1].clone());
            }
            return None;
        }
        if str_starts_with(arg, name) {
            let arg_len = arg.unicode_len();
            if arg_len > name_len && arg.get_char(name_len) == '=' {
                let v = arg.substring_char(name_len + 1, arg_len);
                return Some(v.to_owned());
            }
        }
        i += 1;
    }
    None
}

/// Determines whether any `--crate-type`-style value of the flag `name`
/// names a library crate type.
pub fn any_arg_flag_is_lib(args: &Vec<String>, name: &str) -> (r: bool)
    ensures
        r == spec_any_flag_is_lib(args.deep_view(), name@, 0),
{
    let name_len = name.unicode_len();
    let mut i: usize = 0;
    while i < args.len()
        invariant
            0 <= i <= args.len(),
            name_len == name@.len(),
            spec_any_flag_is_lib(args.deep_view(), name@, 0) == spec_any_flag_is_lib(
                args.deep_view(),
                name@,
                i as int,
            ),
        decreases args.len() - i,
    {
        proof {
            assert(args.deep_view()[i as int] == args@[i as int]@);
            if i + 1 < args.len() {
                assert(args.deep_view()[i + 1 as int] == args@[i + 1 as int]@);
            }
        }
        let arg = args[i].as_str();
        if str_eq(arg, "--") {
            return false;
        }
        if str_starts_with(arg, name) {
            let arg_len = arg.unicode_len();
            if arg_len == name_len {
                if i + 1 < args.len() {
                    if str_eq(args[i + 1].as_str(), "--") {
                        return false;
                    }
                    if TargetKind::is_lib_str(args[i + 1].as_str()) {
                        return true;
                    }
                    i += 2;
                    continue ;
                }
                return false;
            } else if arg.get_char(name_len) == '=' {
                let v = arg.substring_char(name_len + 1, arg_len);
                if TargetKind::is_lib_str(v) {
                    return true;
                }
                i += 1;
                continue ;
            } else {
                return false;
            }
        }
        i += 1;
    }
    false
}

/// Finds the first argument that ends with `.rs`, before the first `--`.
pub fn get_first_arg_with_rs_suffix(args: &Vec<String>) -> (r: Option<String>)
    ensures
        match r {
            Some(v) => spec_first_rs(args.deep_view(), 0) == Some(v@),
            None => spec_first_rs(args.deep_view(), 0) is None,
        },
{
    let mut i: usize = 0;
    while i < args.len()
        invariant
            0 <= i <= args.len(),
            spec_first_rs(args.deep_view(), 0) == spec_first_rs(args.deep_view(), i as int),
        decreases args.len() - i,
    {
        proof {
            assert(args.deep_view()[i as int] == args@[i as int]@);
        }
        if str_eq(args[i].as_str(), "--") {
            return None;
        }
        if str_ends_with(args[i].as_str(), ".rs") {
            return Some(args[i].clone());
        }
        i += 1;
    }
    None
}

} // verus!

//! The dump: one structured, plain-text report of all registries —
//! functions, method declarations, the declaration-to-implementation
//! map, static calls and dynamic calls — rendered field-complete, in
//! the (deterministic) order one traversal wrote them.

use vstd::prelude::*;
use crate::registry::{Call, RegistryModel};
use crate::span::SpanData;
use crate::text::{push_char, push_str};
use crate::visitor::CallgraphVisitor;

verus! {

/// The character of one decimal digit.
pub open spec fn spec_digit(d: nat) -> char {
    if d == 0 {
        '0'
    } else if d == 1 {
        '1'
    } else if d == 2 {
        '2'
    } else if d == 3 {
        '3'
    } else if d == 4 {
        '4'
    } else if d == 5 {
        '5'
    } else if d == 6 {
        '6'
    } else if d == 7 {
        '7'
    } else if d == 8 {
        '8'
    } else {
        '9'
    }
}

/// The decimal rendering of a number, most significant digit first.
pub open spec fn spec_decimal(n: nat) -> Seq<char>
    decreases n,
{
    if n < 10 {
        seq![spec_digit(n)]
    } else {
        spec_decimal(n / 10).push(spec_digit(n % 10))
    }
}

/// The rendering of one span: its byte range, with markers when it is
/// expansion-generated or a synthetic placeholder.
pub open spec fn spec_render_span(sp: SpanData) -> Seq<char> {
    spec_decimal(sp.lo as nat) + ".."@ + spec_decimal(sp.hi as nat) + (if sp.from_expansion {
        "#e"@
    } else {
        Seq::empty()
    }) + (if sp.dummy {
        "#d"@
    } else {
        Seq::empty()
    })
}

/// The rendering of an optional identifier: `-` when absent.
pub open spec fn spec_render_opt_id(o: Option<u64>) -> Seq<char> {
    match o {
        Some(id) => spec_decimal(id as nat),
        None => "-"@,
    }
}

/// The rendering of an optional span: `-` when absent.
pub open spec fn spec_render_opt_span(o: Option<SpanData>) -> Seq<char> {
    match o {
        Some(sp) => spec_render_span(sp),
        None => "-"@,
    }
}

/// The rendering of one call record, every field written out.
pub open spec fn spec_render_call(c: Call) -> Seq<char> {
    "call "@ + spec_decimal(c.call_expr as nat) + " at "@ + spec_render_span(c.call_expr_span)
        + " from "@ + spec_render_opt_id(c.caller) + " at "@ + spec_render_opt_span(c.caller_span)
        + " to "@ + spec_decimal(c.callee as nat) + " at "@ + spec_render_span(c.callee_span)
        + "\n"@
}

/// The function lines, from entry `i` on.
pub open spec fn spec_render_fns(fns: Seq<(u64, SpanData)>, i: int) -> Seq<char>
    decreases fns.len() - i,
{
    if i < 0 || i >= fns.len() {
        Seq::empty()
    } else {
        "fn "@ + spec_decimal(fns[i].0 as nat) + " at "@ + spec_render_span(fns[i].1) + "\n"@
            + spec_render_fns(fns, i + 1)
    }
}

/// The declaration lines, from entry `i` on.
pub open spec fn spec_render_decls(ds: Seq<u64>, i: int) -> Seq<char>
    decreases ds.len() - i,
{
    if i < 0 || i >= ds.len() {
        Seq::empty()
    } else {
        "decl "@ + spec_decimal(ds[i] as nat) + "\n"@ + spec_render_decls(ds, i + 1)
    }
}

/// One implementation list, from entry `i` on.
pub open spec fn spec_render_ids(ids: Seq<u64>, i: int) -> Seq<char>
    decreases ids.len() - i,
{
    if i < 0 || i >= ids.len() {
        Seq::empty()
    } else {
        " "@ + spec_decimal(ids[i] as nat) + spec_render_ids(ids, i + 1)
    }
}

/// The implementation-map lines, from entry `i` on.
pub open spec fn spec_render_impls(m: Seq<(u64, Seq<u64>)>, i: int) -> Seq<char>
    decreases m.len() - i,
{
    if i < 0 || i >= m.len() {
        Seq::empty()
    } else {
        "impl "@ + spec_decimal(m[i].0 as nat) + " <-"@ + spec_render_ids(m[i].1, 0) + "\n"@
            + spec_render_impls(m, i + 1)
    }
}

/// The call lines, from entry `i` on.
pub open spec fn spec_render_calls(cs: Seq<Call>, i: int) -> Seq<char>
    decreases cs.len() - i,
{
    if i < 0 || i >= cs.len() {
        Seq::empty()
    } else {
        spec_render_call(cs[i]) + spec_render_calls(cs, i + 1)
    }
}

/// The whole report: all five registries, each under its heading.
pub open spec fn spec_dump(m: RegistryModel) -> Seq<char> {
    "functions:\n"@ + spec_render_fns(m.functions, 0) + "method_decls:\n"@ + spec_render_decls(
        m.method_decls,
        0,
    ) + "method_impls:\n"@ + spec_render_impls(m.method_impls, 0) + "static_calls:\n"@
        + spec_render_calls(m.static_calls, 0) + "dynamic_calls:\n"@ + spec_render_calls(
        m.dynamic_calls,
        0,
    )
}

/// One decimal digit as a character.
fn digit_char(d: u64) -> (c: char)
    requires
        d < 10,
    ensures
        c == spec_digit(d as nat),
{
    match d {
        0 => '0',
        1 => '1',
        2 => '2',
        3 => '3',
        4 => '4',
        5 => '5',
        6 => '6',
        7 => '7',
        8 => '8',
        _ => '9',
    }
}

/// Appends the decimal rendering of `n`.
fn append_decimal(out: &mut String, n: u64)
    ensures
        final(out)@ == old(out)@ + spec_decimal(n as nat),
    decreases n,
{
    let ghost o0 = out@;
    if n < 10 {
        push_char(out, digit_char(n));
        proof {
            assert(out@ =~= o0 + seq![spec_digit(n as nat)]);
        }
    } else {
        proof {
            assert(n as nat / 10 < n as nat) by (nonlinear_arith)
                requires
                    n >= 10,
            ;
        }
        append_decimal(out, n / 10);
        push_char(out, digit_char(n % 10));
        proof {
            assert(out@ =~= o0 + spec_decimal(n as nat));
        }
    }
}

/// Appends the rendering of one span.
fn append_span(out: &mut String, sp: &SpanData)
    ensures
        final(out)@ == old(out)@ + spec_render_span(*sp),
{
    let ghost o0 = out@;
    append_decimal(out, sp.lo as u64);
    push_str(out, "..");
    append_decimal(out, sp.hi as u64);
    if sp.from_expansion {
        push_str(out, "#e");
    }
    if sp.dummy {
        push_str(out, "#d");
    }
    proof {
        assert(out@ =~= o0 + spec_render_span(*sp));
    }
}

/// Appends the rendering of one call record.
#[verifier::rlimit(60)]
fn append_call(out: &mut String, c: &Call)
    ensures
        final(out)@ == old(out)@ + spec_render_call(*c),
{
    let ghost o0 = out@;
    push_str(out, "call ");
    append_decimal(out, c.call_expr);
    push_str(out, " at ");
    append_span(out, &c.call_expr_span);
    push_str(out, " from ");
    match c.caller {
        Some(id) => append_decimal(out, id),
        None => push_str(out, "-"),
    }
    push_str(out, " at ");
    match c.caller_span {
        Some(sp) => append_span(out, &sp),
        None => push_str(out, "-"),
    }
    push_str(out, " to ");
    append_decimal(out, c.callee);
    push_str(out, " at ");
    append_span(out, &c.callee_span);
    push_str(out, "\n");
    proof {
        assert(out@ =~= o0 + spec_render_call(*c));
    }
}

impl CallgraphVisitor {
    /// Serializes the registry's whole contents — functions, method
    /// declarations, the declaration-to-implementation map, static and
    /// dynamic calls — as one plain-text report for the orchestration
    /// layer to capture.
    pub fn dump(&self) -> (r: String)
        ensures
            r@ == spec_dump(self.registry@),
    {
        let mut out = String::new();
        proof {
            assert(out@ =~= Seq::<char>::empty());
        }
        push_str(&mut out, "functions:\n");
        let mut i: usize = 0;
        while i < self.registry.functions.len()
            invariant
                0 <= i <= self.registry.functions.len(),
                out@ + spec_render_fns(self.registry@.functions, i as int) == "functions:\n"@
                    + spec_render_fns(self.registry@.functions, 0),
            decreases self.registry.functions.len() - i,
        {
            let ghost o0 = out@;
            let entry = &self.registry.functions[i];
            push_str(&mut out, "fn ");
            append_decimal(&mut out, entry.0);
            push_str(&mut out, " at ");
            append_span(&mut out, &entry.1);
            push_str(&mut out, "\n");
            proof {
                assert(out@ =~= o0 + ("fn "@ + spec_decimal(entry.0 as nat) + " at "@
                    + spec_render_span(entry.1) + "\n"@));
                assert(out@ + spec_render_fns(self.registry@.functions, i + 1) =~= o0
                    + spec_render_fns(self.registry@.functions, i as int));
            }
            i += 1;
        }
        proof {
            assert(out@ =~= out@ + spec_render_fns(self.registry@.functions,
                self.registry@.functions.len() as int));
        }
        push_str(&mut out, "method_decls:\n");
        let mut i: usize = 0;
        let ghost part1 = "functions:\n"@ + spec_render_fns(self.registry@.functions, 0)
            + "method_decls:\n"@;
        while i < self.registry.method_decls.len()
            invariant
                0 <= i <= self.registry.method_decls.len(),
                out@ + spec_render_decls(self.registry@.method_decls, i as int) == part1
                    + spec_render_decls(self.registry@.method_decls, 0),
            decreases self.registry.method_decls.len() - i,
        {
            let ghost o0 = out@;
            push_str(&mut out, "decl ");
            append_decimal(&mut out, self.registry.method_decls[i]);
            push_str(&mut out, "\n");
            proof {
                assert(out@ =~= o0 + ("decl "@ + spec_decimal(
                    self.registry@.method_decls[i as int] as nat,
                ) + "\n"@));
                assert(out@ + spec_render_decls(self.registry@.method_decls, i + 1) =~= o0
                    + spec_render_decls(self.registry@.method_decls, i as int));
            }
            i += 1;
        }
        proof {
            assert(out@ =~= out@ + spec_render_decls(self.registry@.method_decls,
                self.registry@.method_decls.len() as int));
        }
        push_str(&mut out, "method_impls:\n");
        let mut i: usize = 0;
        let ghost part2 = part1 + spec_render_decls(self.registry@.method_decls, 0)
            + "method_impls:\n"@;
        while i < self.registry.method_impls.len()
            invariant
                0 <= i <= self.registry.method_impls.len(),
                out@ + spec_render_impls(self.registry@.method_impls, i as int) == part2
                    + spec_render_impls(self.registry@.method_impls, 0),
            decreases self.registry.method_impls.len() - i,
        {
            let ghost o0 = out@;
            proof {
                assert(self.registry@.method_impls[i as int] == (
                    self.registry.method_impls@[i as int].decl,
                    self.registry.method_impls@[i as int].impls@,
                ));
            }
            let entry = &self.registry.method_impls[i];
            push_str(&mut out, "impl ");
            append_decimal(&mut out, entry.decl);
            push_str(&mut out, " <-");
            let ghost o1 = out@;
            let mut j: usize = 0;
            while j < entry.impls.len()
                invariant
                    0 <= j <= entry.impls.len(),
                    out@ + spec_render_ids(entry.impls@, j as int) == o1 + spec_render_ids(
                        entry.impls@,
                        0,
                    ),
                decreases entry.impls.len() - j,
            {
                let ghost o2 = out@;
                push_str(&mut out, " ");
                append_decimal(&mut out, entry.impls[j]);
                proof {
                    assert(out@ =~= o2 + (" "@ + spec_decimal(entry.impls@[j as int] as nat)));
                    assert(out@ + spec_render_ids(entry.impls@, j + 1) =~= o2 + spec_render_ids(
                        entry.impls@,
                        j as int,
                    ));
                }
                j += 1;
            }
            push_str(&mut out, "\n");
            proof {
                assert(spec_render_ids(entry.impls@, entry.impls@.len() as int)
                    == Seq::<char>::empty());
                assert(out@ =~= o0 + ("impl "@ + spec_decimal(entry.decl as nat) + " <-"@
                    + spec_render_ids(entry.impls@, 0) + "\n"@));
                assert(out@ + spec_render_impls(self.registry@.method_impls, i + 1) =~= o0
                    + spec_render_impls(self.registry@.method_impls, i as int));
            }
            i += 1;
        }
        proof {
            assert(out@ =~= out@ + spec_render_impls(self.registry@.method_impls,
                self.registry@.method_impls.len() as int));
        }
        push_str(&mut out, "static_calls:\n");
        let mut i: usize = 0;
        let ghost part3 = part2 + spec_render_impls(self.registry@.method_impls, 0)
            + "static_calls:\n"@;
        while i < self.registry.static_calls.len()
            invariant
                0 <= i <= self.registry.static_calls.len(),
                out@ + spec_render_calls(self.registry@.static_calls, i as int) == part3
                    + spec_render_calls(self.registry@.static_calls, 0),
            decreases self.registry.static_calls.len() - i,
        {
            let ghost o0 = out@;
            append_call(&mut out, &self.registry.static_calls[i]);
            proof {
                assert(out@ + spec_render_calls(self.registry@.static_calls, i + 1) =~= o0
                    + spec_render_calls(self.registry@.static_calls, i as int));
            }
            i += 1;
        }
        proof {
            assert(out@ =~= out@ + spec_render_calls(self.registry@.static_calls,
                self.registry@.static_calls.len() as int));
        }
        push_str(&mut out, "dynamic_calls:\n");
        let mut i: usize = 0;
        let ghost part4 = part3 + spec_render_calls(self.registry@.static_calls, 0)
            + "dynamic_calls:\n"@;
        while i < self.registry.dynamic_calls.len()
            invariant
                0 <= i <= self.registry.dynamic_calls.len(),
                out@ + spec_render_calls(self.registry@.dynamic_calls, i as int) == part4
                    + spec_render_calls(self.registry@.dynamic_calls, 0),
            decreases self.registry.dynamic_calls.len() - i,
        {
            let ghost o0 = out@;
            append_call(&mut out, &self.registry.dynamic_calls[i]);
            proof {
                assert(out@ + spec_render_calls(self.registry@.dynamic_calls, i + 1) =~= o0
                    + spec_render_calls(self.registry@.dynamic_calls, i as int));
            }
            i += 1;
        }
        proof {
            assert(out@ =~= out@ + spec_render_calls(self.registry@.dynamic_calls,
                self.registry@.dynamic_calls.len() as int));
            assert(out@ =~= spec_dump(self.registry@));
        }
        out
    }
}

} // verus!

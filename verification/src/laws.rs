//! The guarantees of the traversal, stated and proved over the fold of
//! `visitor`: which identifiers end in the functions registry and that
//! each appears once, which call records end in the static and dynamic
//! edge sets and with which enclosing function, which links end in the
//! declaration-to-implementation map, and that synthetic code leaves no
//! trace.

use vstd::prelude::*;
use crate::registry::{
    Call, RegistryModel, empty_model, spec_add_decl, spec_add_function, spec_add_impl,
    spec_ensure_entry, spec_has_fn, spec_impls_index,
};
use crate::span::SpanData;
use crate::unit::{
    Expr, ExprKind, ItemLike, MethodResolution, PathTarget, ResolvedShape, TraitAssoc, Unit,
    spec_assoc_lookup,
};
use crate::visitor::{
    call_record, spec_analyze, spec_expr_top, spec_item, spec_items, spec_walk_expr,
    spec_walk_exprs,
};

verus! {

/// Membership in a pushed sequence: the old members and the new one.
pub proof fn lemma_push_contains<A>(s: Seq<A>, x: A, y: A)
    ensures
        s.push(x).contains(y) == (s.contains(y) || x == y),
{
    if s.contains(y) {
        let i = choose|i: int| 0 <= i < s.len() && s[i] == y;
        assert(s.push(x)[i] == y);
    }
    if x == y {
        assert(s.push(x)[s.len() as int] == y);
    }
    if s.push(x).contains(y) {
        let i = choose|i: int| 0 <= i < s.push(x).len() && s.push(x)[i] == y;
        if i < s.len() {
            assert(s[i] == y);
        }
    }
}

// ---------------------------------------------------------------------
// What an expression walk can and cannot touch: bodies only ever add
// call edges; the other three containers belong to the item level.
// ---------------------------------------------------------------------

/// Walking an expression leaves functions, declarations and the
/// implementation map exactly as they were.
pub proof fn lemma_walk_expr_frame(r: RegistryModel, e: Expr, ctx: Option<u64>)
    ensures
        spec_walk_expr(r, e, ctx).functions == r.functions,
        spec_walk_expr(r, e, ctx).method_decls == r.method_decls,
        spec_walk_expr(r, e, ctx).method_impls == r.method_impls,
    decreases e, 0int,
{
    if !e.span.spec_skipped() {
        lemma_walk_exprs_frame(spec_expr_top(r, e, ctx), e.children@, 0, ctx);
    }
}

/// Walking a list of expressions leaves functions, declarations and the
/// implementation map exactly as they were.
pub proof fn lemma_walk_exprs_frame(r: RegistryModel, s: Seq<Expr>, i: int, ctx: Option<u64>)
    ensures
        spec_walk_exprs(r, s, i, ctx).functions == r.functions,
        spec_walk_exprs(r, s, i, ctx).method_decls == r.method_decls,
        spec_walk_exprs(r, s, i, ctx).method_impls == r.method_impls,
    decreases s, s.len() - i,
{
    if 0 <= i < s.len() {
        lemma_walk_expr_frame(r, s[i], ctx);
        lemma_walk_exprs_frame(spec_walk_expr(r, s[i], ctx), s, i + 1, ctx);
    }
}

// ---------------------------------------------------------------------
// Completeness of the functions registry: an identifier is there
// exactly when some function-shaped, non-synthetic declaration of the
// unit carries it — and it is there at most once.
// ---------------------------------------------------------------------

/// Whether this item declares a function body under identifier `id`: a
/// free function, a trait method with a default body, or an impl
/// method, not skipped as synthetic.
pub open spec fn item_declares_fn(it: ItemLike, id: u64) -> bool {
    match it {
        ItemLike::Fn { def_id, span, .. } => !span.spec_skipped() && def_id == id,
        ItemLike::TraitMethod { def_id, span, has_default, .. } => !span.spec_skipped()
            && has_default && def_id == id,
        ItemLike::ImplMethod { def_id, span, .. } => !span.spec_skipped() && def_id == id,
        _ => false,
    }
}

/// One item's effect on the functions registry, as membership.
proof fn lemma_item_functions(r: RegistryModel, it: ItemLike, assoc: Seq<TraitAssoc>, id: u64)
    ensures
        spec_has_fn(spec_item(r, it, assoc).functions, id) == (spec_has_fn(r.functions, id)
            || item_declares_fn(it, id)),
{
    match it {
        ItemLike::Fn { def_id, span, body } => {
            if !span.spec_skipped() {
                let r1 = spec_add_function(r, def_id, span);
                lemma_walk_exprs_frame(r1, body@, 0, Some(def_id));
                lemma_add_function_has(r, def_id, span, id);
            }
        },
        ItemLike::TraitMethod { def_id, span, has_default, default_body } => {
            if !span.spec_skipped() {
                if has_default {
                    let r1 = spec_add_decl(r, def_id);
                    let r2 = spec_add_function(r1, def_id, span);
                    let r3 = spec_add_impl(r2, def_id, def_id);
                    assert(r3.functions == r2.functions);
                    lemma_walk_exprs_frame(r3, default_body@, 0, Some(def_id));
                    lemma_add_function_has(r1, def_id, span, id);
                }
            }
        },
        ItemLike::TraitOther { span, body } => {
            if !span.spec_skipped() {
                lemma_walk_exprs_frame(r, body@, 0, None);
            }
        },
        ItemLike::ImplMethod { def_id, span, name, of_trait, body } => {
            if !span.spec_skipped() {
                let r1 = spec_add_function(r, def_id, span);
                let r2 = match of_trait {
                    Some(t) => match spec_assoc_lookup(assoc, t, name) {
                        Some(decl) => spec_add_impl(r1, decl, def_id),
                        None => r1,
                    },
                    None => r1,
                };
                assert(r2.functions == r1.functions);
                lemma_walk_exprs_frame(r2, body@, 0, Some(def_id));
                lemma_add_function_has(r, def_id, span, id);
            }
        },
        ItemLike::ImplOther { span, body } => {
            if !span.spec_skipped() {
                lemma_walk_exprs_frame(r, body@, 0, None);
            }
        },
        ItemLike::Other { span, body } => {
            if !span.spec_skipped() {
                lemma_walk_exprs_frame(r, body@, 0, None);
            }
        },
    }
}

/// Registering a function makes exactly that identifier present.
proof fn lemma_add_function_has(r: RegistryModel, def_id: u64, sp: SpanData, id: u64)
    ensures
        spec_has_fn(spec_add_function(r, def_id, sp).functions, id) == (spec_has_fn(
            r.functions,
            id,
        ) || def_id == id),
{
    if !spec_has_fn(r.functions, def_id) {
        let fns = r.functions;
        if spec_has_fn(fns, id) {
            let k = choose|k: int| 0 <= k < fns.len() && fns[k].0 == id;
            assert(fns.push((def_id, sp))[k].0 == id);
        }
        if def_id == id {
            assert(fns.push((def_id, sp))[fns.len() as int].0 == id);
        }
        if spec_has_fn(fns.push((def_id, sp)), id) {
            let k = choose|k: int| 0 <= k < fns.push((def_id, sp)).len() && fns.push(
                (def_id, sp),
            )[k].0 == id;
            if k < fns.len() {
                assert(fns[k].0 == id);
            }
        }
    }
}

/// The items fold, as functions-registry membership.
proof fn lemma_items_functions(
    r: RegistryModel,
    items: Seq<ItemLike>,
    assoc: Seq<TraitAssoc>,
    i: int,
    id: u64,
)
    requires
        0 <= i,
    ensures
        spec_has_fn(spec_items(r, items, assoc, i).functions, id) == (spec_has_fn(r.functions, id)
            || exists|k: int| i <= k < items.len() && item_declares_fn(#[trigger] items[k], id)),
    decreases items.len() - i,
{
    if i < items.len() {
        lemma_item_functions(r, items[i], assoc, id);
        lemma_items_functions(spec_item(r, items[i], assoc), items, assoc, i + 1, id);
        if item_declares_fn(items[i], id) {
            assert(i <= i < items.len() && item_declares_fn(items[i], id));
        }
        if exists|k: int| i <= k < items.len() && item_declares_fn(#[trigger] items[k], id) {
            let k = choose|k: int| i <= k < items.len() && item_declares_fn(
                #[trigger] items[k],
                id,
            );
            if k != i {
                assert(i + 1 <= k < items.len() && item_declares_fn(items[k], id));
            }
        }
    }
}

/// Completeness of the functions registry: an identifier is registered
/// if and only if some function-shaped declaration with a body, outside
/// synthetic code, carries it.
pub proof fn lemma_functions_complete(u: Unit, id: u64)
    ensures
        spec_has_fn(spec_analyze(u).functions, id) == exists|k: int|
            0 <= k < u.items@.len() && item_declares_fn(#[trigger] u.items@[k], id),
{
    lemma_items_functions(empty_model(), u.items@, u.assoc@, 0, id);
}

/// No identifier is registered twice: whatever two entries of the
/// functions registry share their identifier are the same entry.
pub proof fn lemma_functions_unique(u: Unit)
    ensures
        forall|k1: int, k2: int|
            0 <= k1 < k2 < spec_analyze(u).functions.len() ==> (#[trigger] spec_analyze(
                u,
            ).functions[k1]).0 != (#[trigger] spec_analyze(u).functions[k2]).0,
{
    lemma_items_functions_unique(empty_model(), u.items@, u.assoc@, 0);
}

/// Identifier uniqueness in the functions registry, as a fold invariant.
proof fn lemma_items_functions_unique(
    r: RegistryModel,
    items: Seq<ItemLike>,
    assoc: Seq<TraitAssoc>,
    i: int,
)
    requires
        0 <= i,
        forall|k1: int, k2: int|
            0 <= k1 < k2 < r.functions.len() ==> (#[trigger] r.functions[k1]).0 != (
            #[trigger] r.functions[k2]).0,
    ensures
        forall|k1: int, k2: int|
            0 <= k1 < k2 < spec_items(r, items, assoc, i).functions.len() ==> (#[trigger] spec_items(
                r,
                items,
                assoc,
                i,
            ).functions[k1]).0 != (#[trigger] spec_items(r, items, assoc, i).functions[k2]).0,
    decreases items.len() - i,
{
    if 0 <= i < items.len() {
        lemma_item_functions_unique(r, items[i], assoc);
        lemma_items_functions_unique(spec_item(r, items[i], assoc), items, assoc, i + 1);
        assert(spec_items(r, items, assoc, i) == spec_items(
            spec_item(r, items[i], assoc),
            items,
            assoc,
            i + 1,
        ));
    } else {
        assert(spec_items(r, items, assoc, i) == r);
    }
}

/// One item's step keeps the functions registry free of repeats.
proof fn lemma_item_functions_unique(r: RegistryModel, it: ItemLike, assoc: Seq<TraitAssoc>)
    requires
        forall|k1: int, k2: int|
            0 <= k1 < k2 < r.functions.len() ==> (#[trigger] r.functions[k1]).0 != (
            #[trigger] r.functions[k2]).0,
    ensures
        forall|k1: int, k2: int|
            0 <= k1 < k2 < spec_item(r, it, assoc).functions.len() ==> (#[trigger] spec_item(
                r,
                it,
                assoc,
            ).functions[k1]).0 != (#[trigger] spec_item(r, it, assoc).functions[k2]).0,
{
    match it {
        ItemLike::Fn { def_id, span, body } => {
            if !span.spec_skipped() {
                let r1 = spec_add_function(r, def_id, span);
                lemma_add_function_unique(r, def_id, span);
                lemma_walk_exprs_frame(r1, body@, 0, Some(def_id));
            }
        },
        ItemLike::TraitMethod { def_id, span, has_default, default_body } => {
            if !span.spec_skipped() && has_default {
                let r1 = spec_add_decl(r, def_id);
                let r2 = spec_add_function(r1, def_id, span);
                let r3 = spec_add_impl(r2, def_id, def_id);
                lemma_add_function_unique(r1, def_id, span);
                assert(r3.functions == r2.functions);
                lemma_walk_exprs_frame(r3, default_body@, 0, Some(def_id));
            }
        },
        ItemLike::TraitOther { span, body } => {
            if !span.spec_skipped() {
                lemma_walk_exprs_frame(r, body@, 0, None);
            }
        },
        ItemLike::ImplMethod { def_id, span, name, of_trait, body } => {
            if !span.spec_skipped() {
                let r1 = spec_add_function(r, def_id, span);
                lemma_add_function_unique(r, def_id, span);
                let r2 = match of_trait {
                    Some(t) => match spec_assoc_lookup(assoc, t, name) {
                        Some(decl) => spec_add_impl(r1, decl, def_id),
                        None => r1,
                    },
                    None => r1,
                };
                assert(r2.functions == r1.functions);
                lemma_walk_exprs_frame(r2, body@, 0, Some(def_id));
            }
        },
        ItemLike::ImplOther { span, body } => {
            if !span.spec_skipped() {
                lemma_walk_exprs_frame(r, body@, 0, None);
            }
        },
        ItemLike::Other { span, body } => {
            if !span.spec_skipped() {
                lemma_walk_exprs_frame(r, body@, 0, None);
            }
        },
    }
}

/// Registering a function keeps the registry free of repeats: nothing
/// is pushed when the identifier is already there.
proof fn lemma_add_function_unique(r: RegistryModel, def_id: u64, sp: SpanData)
    requires
        forall|k1: int, k2: int|
            0 <= k1 < k2 < r.functions.len() ==> (#[trigger] r.functions[k1]).0 != (
            #[trigger] r.functions[k2]).0,
    ensures
        forall|k1: int, k2: int|
            0 <= k1 < k2 < spec_add_function(r, def_id, sp).functions.len() ==> (
            #[trigger] spec_add_function(r, def_id, sp).functions[k1]).0 != (
            #[trigger] spec_add_function(r, def_id, sp).functions[k2]).0,
{
    if !spec_has_fn(r.functions, def_id) {
        let fns = spec_add_function(r, def_id, sp).functions;
        assert forall|k1: int, k2: int| 0 <= k1 < k2 < fns.len() implies (#[trigger] fns[k1]).0 != (
        #[trigger] fns[k2]).0 by {
            if k2 == r.functions.len() {
                assert(r.functions[k1].0 != def_id);
            }
        }
    }
}

// ---------------------------------------------------------------------
// Call classification: the static edge set holds exactly the records of
// path references and concretely resolved method calls, the dynamic
// edge set exactly those of method calls resolved only to a trait
// method declaration — each under the enclosing function of its body.
// ---------------------------------------------------------------------

/// The static call record one expression node itself yields: a path
/// that names a definition, or a method call resolved to a concrete
/// implementation, free item or foreign item.
pub open spec fn spec_top_static(e: Expr, ctx: Option<u64>) -> Option<Call> {
    match e.kind {
        ExprKind::PathRef(PathTarget::Def { def_id, def_span }) => Some(
            call_record(e, ctx, def_id, def_span),
        ),
        ExprKind::MethodCall(
            MethodResolution::Resolved { callee, callee_span, shape },
        ) => match shape {
            ResolvedShape::ImplMethod => Some(call_record(e, ctx, callee, callee_span)),
            ResolvedShape::FreeItem => Some(call_record(e, ctx, callee, callee_span)),
            ResolvedShape::ForeignItem => Some(call_record(e, ctx, callee, callee_span)),
            _ => None,
        },
        _ => None,
    }
}

/// The dynamic call record one expression node itself yields: a method
/// call resolved only to a trait method declaration.
pub open spec fn spec_top_dynamic(e: Expr, ctx: Option<u64>) -> Option<Call> {
    match e.kind {
        ExprKind::MethodCall(
            MethodResolution::Resolved { callee, callee_span, shape: ResolvedShape::TraitDecl },
        ) => Some(call_record(e, ctx, callee, callee_span)),
        _ => None,
    }
}

/// Whether walking `e` under `ctx` writes static record `c`.
pub open spec fn expr_adds_static(e: Expr, ctx: Option<u64>, c: Call) -> bool
    decreases e, 0int,
{
    &&& !e.span.spec_skipped()
    &&& (spec_top_static(e, ctx) == Some(c) || exprs_add_static(e.children@, 0, ctx, c))
}

/// Whether walking `s` from `i` on under `ctx` writes static record `c`.
pub open spec fn exprs_add_static(s: Seq<Expr>, i: int, ctx: Option<u64>, c: Call) -> bool
    decreases s, s.len() - i,
{
    if i < 0 || i >= s.len() {
        false
    } else {
        expr_adds_static(s[i], ctx, c) || exprs_add_static(s, i + 1, ctx, c)
    }
}

/// Whether walking `e` under `ctx` writes dynamic record `c`.
pub open spec fn expr_adds_dynamic(e: Expr, ctx: Option<u64>, c: Call) -> bool
    decreases e, 0int,
{
    &&& !e.span.spec_skipped()
    &&& (spec_top_dynamic(e, ctx) == Some(c) || exprs_add_dynamic(e.children@, 0, ctx, c))
}

/// Whether walking `s` from `i` on under `ctx` writes dynamic record `c`.
pub open spec fn exprs_add_dynamic(s: Seq<Expr>, i: int, ctx: Option<u64>, c: Call) -> bool
    decreases s, s.len() - i,
{
    if i < 0 || i >= s.len() {
        false
    } else {
        expr_adds_dynamic(s[i], ctx, c) || exprs_add_dynamic(s, i + 1, ctx, c)
    }
}

/// The span that decides whether an item is skipped.
pub open spec fn item_span(it: ItemLike) -> SpanData {
    match it {
        ItemLike::Fn { span, .. } => span,
        ItemLike::TraitMethod { span, .. } => span,
        ItemLike::TraitOther { span, .. } => span,
        ItemLike::ImplMethod { span, .. } => span,
        ItemLike::ImplOther { span, .. } => span,
        ItemLike::Other { span, .. } => span,
    }
}

/// The enclosing-function context an item's expressions are walked
/// under: the item itself when function-shaped, nothing otherwise.
pub open spec fn item_walk_ctx(it: ItemLike) -> Option<u64> {
    match it {
        ItemLike::Fn { def_id, .. } => Some(def_id),
        ItemLike::TraitMethod { def_id, .. } => Some(def_id),
        ItemLike::ImplMethod { def_id, .. } => Some(def_id),
        _ => None,
    }
}

/// The expressions an item's visit walks: its body; for a trait method
/// this is the default body, and nothing when there is none.
pub open spec fn item_walk_body(it: ItemLike) -> Seq<Expr> {
    match it {
        ItemLike::Fn { body, .. } => body@,
        ItemLike::TraitMethod { has_default, default_body, .. } => if has_default {
            default_body@
        } else {
            Seq::empty()
        },
        ItemLike::TraitOther { body, .. } => body@,
        ItemLike::ImplMethod { body, .. } => body@,
        ItemLike::ImplOther { body, .. } => body@,
        ItemLike::Other { body, .. } => body@,
    }
}

/// Whether visiting `it` writes static record `c`.
pub open spec fn item_adds_static(it: ItemLike, c: Call) -> bool {
    &&& !item_span(it).spec_skipped()
    &&& exprs_add_static(item_walk_body(it), 0, item_walk_ctx(it), c)
}

/// Whether visiting `it` writes dynamic record `c`.
pub open spec fn item_adds_dynamic(it: ItemLike, c: Call) -> bool {
    &&& !item_span(it).spec_skipped()
    &&& exprs_add_dynamic(item_walk_body(it), 0, item_walk_ctx(it), c)
}

/// One node's own contribution to the two edge sets.
proof fn lemma_top_calls(r: RegistryModel, e: Expr, ctx: Option<u64>, c: Call)
    ensures
        spec_expr_top(r, e, ctx).static_calls.contains(c) == (r.static_calls.contains(c)
            || spec_top_static(e, ctx) == Some(c)),
        spec_expr_top(r, e, ctx).dynamic_calls.contains(c) == (r.dynamic_calls.contains(c)
            || spec_top_dynamic(e, ctx) == Some(c)),
{
    match e.kind {
        ExprKind::PathRef(PathTarget::Def { def_id, def_span }) => {
            lemma_push_contains(r.static_calls, call_record(e, ctx, def_id, def_span), c);
        },
        ExprKind::MethodCall(MethodResolution::Resolved { callee, callee_span, shape }) => {
            lemma_push_contains(r.static_calls, call_record(e, ctx, callee, callee_span), c);
            lemma_push_contains(r.dynamic_calls, call_record(e, ctx, callee, callee_span), c);
        },
        _ => {},
    }
}

/// Walking one expression, as edge-set membership.
proof fn lemma_walk_expr_calls(r: RegistryModel, e: Expr, ctx: Option<u64>, c: Call)
    ensures
        spec_walk_expr(r, e, ctx).static_calls.contains(c) == (r.static_calls.contains(c)
            || expr_adds_static(e, ctx, c)),
        spec_walk_expr(r, e, ctx).dynamic_calls.contains(c) == (r.dynamic_calls.contains(c)
            || expr_adds_dynamic(e, ctx, c)),
    decreases e, 0int,
{
    if !e.span.spec_skipped() {
        lemma_top_calls(r, e, ctx, c);
        lemma_walk_exprs_calls(spec_expr_top(r, e, ctx), e.children@, 0, ctx, c);
    }
}

/// Walking a list of expressions, as edge-set membership.
proof fn lemma_walk_exprs_calls(r: RegistryModel, s: Seq<Expr>, i: int, ctx: Option<u64>, c: Call)
    ensures
        spec_walk_exprs(r, s, i, ctx).static_calls.contains(c) == (r.static_calls.contains(c)
            || exprs_add_static(s, i, ctx, c)),
        spec_walk_exprs(r, s, i, ctx).dynamic_calls.contains(c) == (r.dynamic_calls.contains(c)
            || exprs_add_dynamic(s, i, ctx, c)),
    decreases s, s.len() - i,
{
    if 0 <= i < s.len() {
        lemma_walk_expr_calls(r, s[i], ctx, c);
        lemma_walk_exprs_calls(spec_walk_expr(r, s[i], ctx), s, i + 1, ctx, c);
    }
}

/// The item-level registrations never touch the edge sets.
proof fn lemma_item_ops_calls_frame(r: RegistryModel, it: ItemLike, assoc: Seq<TraitAssoc>)
    ensures
        spec_item(r, it, assoc).static_calls == spec_walk_exprs(
            r,
            if item_span(it).spec_skipped() {
                Seq::empty()
            } else {
                item_walk_body(it)
            },
            0,
            item_walk_ctx(it),
        ).static_calls,
        spec_item(r, it, assoc).dynamic_calls == spec_walk_exprs(
            r,
            if item_span(it).spec_skipped() {
                Seq::empty()
            } else {
                item_walk_body(it)
            },
            0,
            item_walk_ctx(it),
        ).dynamic_calls,
{
    if !item_span(it).spec_skipped() {
        match it {
            ItemLike::Fn { def_id, span, body } => {
                let r1 = spec_add_function(r, def_id, span);
                lemma_walk_exprs_same_calls(r, r1, body@, 0, Some(def_id));
            },
            ItemLike::TraitMethod { def_id, span, has_default, default_body } => {
                if has_default {
                    let r3 = spec_add_impl(
                        spec_add_function(spec_add_decl(r, def_id), def_id, span),
                        def_id,
                        def_id,
                    );
                    lemma_walk_exprs_same_calls(r, r3, default_body@, 0, Some(def_id));
                }
            },
            ItemLike::ImplMethod { def_id, span, name, of_trait, body } => {
                let r1 = spec_add_function(r, def_id, span);
                let r2 = match of_trait {
                    Some(t) => match spec_assoc_lookup(assoc, t, name) {
                        Some(decl) => spec_add_impl(r1, decl, def_id),
                        None => r1,
                    },
                    None => r1,
                };
                lemma_walk_exprs_same_calls(r, r2, body@, 0, Some(def_id));
            },
            _ => {},
        }
    }
}

/// Two starting registries with the same edge sets keep the same edge
/// sets through the same walk.
proof fn lemma_walk_exprs_same_calls(
    r1: RegistryModel,
    r2: RegistryModel,
    s: Seq<Expr>,
    i: int,
    ctx: Option<u64>,
)
    requires
        r1.static_calls == r2.static_calls,
        r1.dynamic_calls == r2.dynamic_calls,
    ensures
        spec_walk_exprs(r1, s, i, ctx).static_calls == spec_walk_exprs(r2, s, i, ctx).static_calls,
        spec_walk_exprs(r1, s, i, ctx).dynamic_calls == spec_walk_exprs(
            r2,
            s,
            i,
            ctx,
        ).dynamic_calls,
    decreases s, s.len() - i,
{
    if 0 <= i < s.len() {
        lemma_walk_expr_same_calls(r1, r2, s[i], ctx);
        lemma_walk_exprs_same_calls(
            spec_walk_expr(r1, s[i], ctx),
            spec_walk_expr(r2, s[i], ctx),
            s,
            i + 1,
            ctx,
        );
    }
}

/// Two starting registries with the same edge sets keep the same edge
/// sets through one expression's walk.
proof fn lemma_walk_expr_same_calls(r1: RegistryModel, r2: RegistryModel, e: Expr, ctx: Option<u64>)
    requires
        r1.static_calls == r2.static_calls,
        r1.dynamic_calls == r2.dynamic_calls,
    ensures
        spec_walk_expr(r1, e, ctx).static_calls == spec_walk_expr(r2, e, ctx).static_calls,
        spec_walk_expr(r1, e, ctx).dynamic_calls == spec_walk_expr(r2, e, ctx).dynamic_calls,
    decreases e, 0int,
{
    if !e.span.spec_skipped() {
        lemma_walk_exprs_same_calls(
            spec_expr_top(r1, e, ctx),
            spec_expr_top(r2, e, ctx),
            e.children@,
            0,
            ctx,
        );
    }
}

/// One item's visit, as edge-set membership.
proof fn lemma_item_calls(r: RegistryModel, it: ItemLike, assoc: Seq<TraitAssoc>, c: Call)
    ensures
        spec_item(r, it, assoc).static_calls.contains(c) == (r.static_calls.contains(c)
            || item_adds_static(it, c)),
        spec_item(r, it, assoc).dynamic_calls.contains(c) == (r.dynamic_calls.contains(c)
            || item_adds_dynamic(it, c)),
{
    lemma_item_ops_calls_frame(r, it, assoc);
    if item_span(it).spec_skipped() {
    } else {
        lemma_walk_exprs_calls(r, item_walk_body(it), 0, item_walk_ctx(it), c);
    }
}

/// The items fold, as edge-set membership.
proof fn lemma_items_calls(
    r: RegistryModel,
    items: Seq<ItemLike>,
    assoc: Seq<TraitAssoc>,
    i: int,
    c: Call,
)
    requires
        0 <= i,
    ensures
        spec_items(r, items, assoc, i).static_calls.contains(c) == (r.static_calls.contains(c)
            || exists|k: int| i <= k < items.len() && item_adds_static(#[trigger] items[k], c)),
        spec_items(r, items, assoc, i).dynamic_calls.contains(c) == (r.dynamic_calls.contains(c)
            || exists|k: int| i <= k < items.len() && item_adds_dynamic(#[trigger] items[k], c)),
    decreases items.len() - i,
{
    if i < items.len() {
        lemma_item_calls(r, items[i], assoc, c);
        lemma_items_calls(spec_item(r, items[i], assoc), items, assoc, i + 1, c);
        if item_adds_static(items[i], c) {
            assert(i <= i < items.len() && item_adds_static(items[i], c));
        }
        if item_adds_dynamic(items[i], c) {
            assert(i <= i < items.len() && item_adds_dynamic(items[i], c));
        }
        if exists|k: int| i <= k < items.len() && item_adds_static(#[trigger] items[k], c) {
            let k = choose|k: int| i <= k < items.len() && item_adds_static(#[trigger] items[k], c);
            if k != i {
                assert(i + 1 <= k < items.len() && item_adds_static(items[k], c));
            }
        }
        if exists|k: int| i <= k < items.len() && item_adds_dynamic(#[trigger] items[k], c) {
            let k = choose|k: int|
                i <= k < items.len() && item_adds_dynamic(#[trigger] items[k], c);
            if k != i {
                assert(i + 1 <= k < items.len() && item_adds_dynamic(items[k], c));
            }
        }
    }
}

/// Call classification: the static edge set holds exactly the records
/// that path references and concretely resolved method calls yield, the
/// dynamic edge set exactly those that method calls resolved only to a
/// trait method declaration yield.
pub proof fn lemma_calls_characterized(u: Unit, c: Call)
    ensures
        spec_analyze(u).static_calls.contains(c) == exists|k: int|
            0 <= k < u.items@.len() && item_adds_static(#[trigger] u.items@[k], c),
        spec_analyze(u).dynamic_calls.contains(c) == exists|k: int|
            0 <= k < u.items@.len() && item_adds_dynamic(#[trigger] u.items@[k], c),
{
    lemma_items_calls(empty_model(), u.items@, u.assoc@, 0, c);
}

/// The records one expression tree yields all carry the enclosing
/// function it was walked under.
proof fn lemma_expr_caller(e: Expr, ctx: Option<u64>, c: Call)
    ensures
        expr_adds_static(e, ctx, c) ==> c.caller == ctx,
        expr_adds_dynamic(e, ctx, c) ==> c.caller == ctx,
    decreases e, 0int,
{
    lemma_exprs_caller(e.children@, 0, ctx, c);
}

/// The records a list of expressions yields all carry the enclosing
/// function it was walked under.
proof fn lemma_exprs_caller(s: Seq<Expr>, i: int, ctx: Option<u64>, c: Call)
    ensures
        exprs_add_static(s, i, ctx, c) ==> c.caller == ctx,
        exprs_add_dynamic(s, i, ctx, c) ==> c.caller == ctx,
    decreases s, s.len() - i,
{
    if 0 <= i < s.len() {
        lemma_expr_caller(s[i], ctx, c);
        lemma_exprs_caller(s, i + 1, ctx, c);
    }
}

/// Caller correctness: every recorded edge carries as its caller the
/// function-shaped declaration whose body lexically encloses the call
/// site, and no caller at all when the call stands outside every
/// function, such as in a constant's initializer.
pub proof fn lemma_caller_correct(u: Unit, c: Call)
    ensures
        spec_analyze(u).static_calls.contains(c) ==> exists|k: int|
            0 <= k < u.items@.len() && item_adds_static(#[trigger] u.items@[k], c) && c.caller
                == item_walk_ctx(u.items@[k]),
        spec_analyze(u).dynamic_calls.contains(c) ==> exists|k: int|
            0 <= k < u.items@.len() && item_adds_dynamic(#[trigger] u.items@[k], c) && c.caller
                == item_walk_ctx(u.items@[k]),
{
    lemma_calls_characterized(u, c);
    if spec_analyze(u).static_calls.contains(c) {
        let k = choose|k: int|
            0 <= k < u.items@.len() && item_adds_static(#[trigger] u.items@[k], c);
        lemma_exprs_caller(item_walk_body(u.items@[k]), 0, item_walk_ctx(u.items@[k]), c);
        assert(item_adds_static(u.items@[k], c) && c.caller == item_walk_ctx(u.items@[k]));
    }
    if spec_analyze(u).dynamic_calls.contains(c) {
        let k = choose|k: int|
            0 <= k < u.items@.len() && item_adds_dynamic(#[trigger] u.items@[k], c);
        lemma_exprs_caller(item_walk_body(u.items@[k]), 0, item_walk_ctx(u.items@[k]), c);
        assert(item_adds_dynamic(u.items@[k], c) && c.caller == item_walk_ctx(u.items@[k]));
    }
}

// ---------------------------------------------------------------------
// Declaration/implementation linkage: the map links implementation `d`
// to declaration `decl` exactly when some impl method named like one of
// the implemented trait's items, or a trait method's own default body,
// puts it there — so a bare inherent impl is never linked to anything.
// ---------------------------------------------------------------------

/// Whether the implementation map links `d` to declaration `decl`.
pub open spec fn impls_link(m: Seq<(u64, Seq<u64>)>, decl: u64, d: u64) -> bool {
    exists|j: int| 0 <= j < m.len() && m[j].0 == decl && (#[trigger] m[j].1).contains(d)
}

/// Whether visiting `it` links `d` to `decl`: a trait method with a
/// default body is its own implementation; an impl method of a trait
/// implementation is linked to the trait's first associated item of the
/// same name; nothing else links anything.
pub open spec fn item_links(it: ItemLike, assoc: Seq<TraitAssoc>, decl: u64, d: u64) -> bool {
    match it {
        ItemLike::TraitMethod { def_id, span, has_default, .. } => !span.spec_skipped()
            && has_default && decl == def_id && d == def_id,
        ItemLike::ImplMethod { def_id, span, name, of_trait: Some(t), .. } => !span.spec_skipped()
            && d == def_id && spec_assoc_lookup(assoc, t, name) == Some(decl),
        _ => false,
    }
}

/// Linking one implementation, as map membership.
proof fn lemma_add_impl_link(r: RegistryModel, decl0: u64, id0: u64, decl: u64, d: u64)
    ensures
        impls_link(spec_add_impl(r, decl0, id0).method_impls, decl, d) == (impls_link(
            r.method_impls,
            decl,
            d,
        ) || (decl0 == decl && id0 == d)),
{
    let m = r.method_impls;
    let i = spec_impls_index(m, decl0);
    crate::registry::lemma_impls_index(m, decl0);
    if i < 0 {
        let m1 = m.push((decl0, seq![id0]));
        assert(seq![id0][0] == id0);
        if impls_link(m, decl, d) {
            let j = choose|j: int| 0 <= j < m.len() && m[j].0 == decl && (#[trigger] m[j].1).contains(d);
            assert(m1[j].0 == decl && m1[j].1.contains(d));
        }
        if decl0 == decl && id0 == d {
            assert(m1[m.len() as int].0 == decl && m1[m.len() as int].1.contains(d));
        }
        if impls_link(m1, decl, d) {
            let j = choose|j: int| 0 <= j < m1.len() && m1[j].0 == decl && (#[trigger] m1[j].1).contains(d);
            if j < m.len() {
                assert(m[j].0 == decl && m[j].1.contains(d));
            } else {
                assert(m1[j].1 == seq![id0]);
                let t = choose|t: int| 0 <= t < seq![id0].len() && seq![id0][t] == d;
                assert(seq![id0][t] == id0);
            }
        }
    } else if m[i].1.contains(id0) {
        assert(m[i].0 == decl0 && m[i].1.contains(id0));
        assert(impls_link(m, decl0, id0));
    } else {
        let m1 = m.update(i, (decl0, m[i].1.push(id0)));
        lemma_push_contains(m[i].1, id0, d);
        if impls_link(m, decl, d) {
            let j = choose|j: int| 0 <= j < m.len() && m[j].0 == decl && (#[trigger] m[j].1).contains(d);
            if j == i {
                assert(m1[j].0 == decl && m1[j].1.contains(d));
            } else {
                assert(m1[j].0 == decl && m1[j].1.contains(d));
            }
        }
        if decl0 == decl && id0 == d {
            assert(m1[i].0 == decl && m1[i].1.contains(d));
        }
        if impls_link(m1, decl, d) {
            let j = choose|j: int| 0 <= j < m1.len() && m1[j].0 == decl && (#[trigger] m1[j].1).contains(d);
            if j == i {
                if m[i].1.contains(d) {
                    assert(m[j].0 == decl && m[j].1.contains(d));
                }
            } else {
                assert(m[j].0 == decl && m[j].1.contains(d));
            }
        }
    }
}

/// Reserving an (empty) entry links nothing.
proof fn lemma_ensure_entry_link(r: RegistryModel, decl0: u64, decl: u64, d: u64)
    ensures
        impls_link(spec_ensure_entry(r, decl0).method_impls, decl, d) == impls_link(
            r.method_impls,
            decl,
            d,
        ),
{
    let m = r.method_impls;
    if spec_impls_index(m, decl0) < 0 {
        let m1 = m.push((decl0, seq![]));
        if impls_link(m, decl, d) {
            let j = choose|j: int| 0 <= j < m.len() && m[j].0 == decl && (#[trigger] m[j].1).contains(d);
            assert(m1[j].0 == decl && m1[j].1.contains(d));
        }
        if impls_link(m1, decl, d) {
            let j = choose|j: int| 0 <= j < m1.len() && m1[j].0 == decl && (#[trigger] m1[j].1).contains(d);
            if j < m.len() {
                assert(m[j].0 == decl && m[j].1.contains(d));
            } else {
                assert(m1[j].1.len() == 0);
            }
        }
    }
}

/// One item's visit, as linkage membership.
proof fn lemma_item_links(r: RegistryModel, it: ItemLike, assoc: Seq<TraitAssoc>, decl: u64, d: u64)
    ensures
        impls_link(spec_item(r, it, assoc).method_impls, decl, d) == (impls_link(
            r.method_impls,
            decl,
            d,
        ) || item_links(it, assoc, decl, d)),
{
    if !item_span(it).spec_skipped() {
        match it {
            ItemLike::Fn { def_id, span, body } => {
                lemma_walk_exprs_frame(spec_add_function(r, def_id, span), body@, 0, Some(def_id));
            },
            ItemLike::TraitMethod { def_id, span, has_default, default_body } => {
                if has_default {
                    let r2 = spec_add_function(spec_add_decl(r, def_id), def_id, span);
                    assert(r2.method_impls == r.method_impls);
                    lemma_add_impl_link(r2, def_id, def_id, decl, d);
                    lemma_walk_exprs_frame(
                        spec_add_impl(r2, def_id, def_id),
                        default_body@,
                        0,
                        Some(def_id),
                    );
                } else {
                    let r1 = spec_add_decl(r, def_id);
                    assert(r1.method_impls == r.method_impls);
                    lemma_ensure_entry_link(r1, def_id, decl, d);
                }
            },
            ItemLike::TraitOther { span, body } => {
                lemma_walk_exprs_frame(r, body@, 0, None);
            },
            ItemLike::ImplMethod { def_id, span, name, of_trait, body } => {
                let r1 = spec_add_function(r, def_id, span);
                assert(r1.method_impls == r.method_impls);
                let r2 = match of_trait {
                    Some(t) => match spec_assoc_lookup(assoc, t, name) {
                        Some(dc) => spec_add_impl(r1, dc, def_id),
                        None => r1,
                    },
                    None => r1,
                };
                if let Some(t) = of_trait {
                    if let Some(dc) = spec_assoc_lookup(assoc, t, name) {
                        lemma_add_impl_link(r1, dc, def_id, decl, d);
                    }
                }
                lemma_walk_exprs_frame(r2, body@, 0, Some(def_id));
            },
            ItemLike::ImplOther { span, body } => {
                lemma_walk_exprs_frame(r, body@, 0, None);
            },
            ItemLike::Other { span, body } => {
                lemma_walk_exprs_frame(r, body@, 0, None);
            },
        }
    }
}

/// The items fold, as linkage membership.
proof fn lemma_items_links(
    r: RegistryModel,
    items: Seq<ItemLike>,
    assoc: Seq<TraitAssoc>,
    i: int,
    decl: u64,
    d: u64,
)
    requires
        0 <= i,
    ensures
        impls_link(spec_items(r, items, assoc, i).method_impls, decl, d) == (impls_link(
            r.method_impls,
            decl,
            d,
        ) || exists|k: int| i <= k < items.len() && item_links(#[trigger] items[k], assoc, decl, d)),
    decreases items.len() - i,
{
    if i < items.len() {
        lemma_item_links(r, items[i], assoc, decl, d);
        lemma_items_links(spec_item(r, items[i], assoc), items, assoc, i + 1, decl, d);
        if item_links(items[i], assoc, decl, d) {
            assert(i <= i < items.len() && item_links(items[i], assoc, decl, d));
        }
        if exists|k: int| i <= k < items.len() && item_links(#[trigger] items[k], assoc, decl, d) {
            let k = choose|k: int|
                i <= k < items.len() && item_links(#[trigger] items[k], assoc, decl, d);
            if k != i {
                assert(i + 1 <= k < items.len() && item_links(items[k], assoc, decl, d));
            }
        }
    }
}

/// Linkage correctness: the map links `d` to `decl` exactly when some
/// declaration of the unit does — a trait method's own default body, or
/// an impl method of a trait implementation whose name the trait's
/// associated items resolve to `decl`.
pub proof fn lemma_links_characterized(u: Unit, decl: u64, d: u64)
    ensures
        impls_link(spec_analyze(u).method_impls, decl, d) == exists|k: int|
            0 <= k < u.items@.len() && item_links(#[trigger] u.items@[k], u.assoc@, decl, d),
{
    lemma_items_links(empty_model(), u.items@, u.assoc@, 0, decl, d);
}

/// The definition identifier an item declares, where it declares one.
pub open spec fn item_def_id(it: ItemLike) -> Option<u64> {
    match it {
        ItemLike::Fn { def_id, .. } => Some(def_id),
        ItemLike::TraitMethod { def_id, .. } => Some(def_id),
        ItemLike::ImplMethod { def_id, .. } => Some(def_id),
        _ => None,
    }
}

/// A well-formed unit assigns each declaration its own identifier.
pub open spec fn unit_ids_distinct(u: Unit) -> bool {
    forall|k1: int, k2: int|
        0 <= k1 < k2 < u.items@.len() && item_def_id(#[trigger] u.items@[k1]) is Some
            && item_def_id(#[trigger] u.items@[k2]) is Some ==> item_def_id(u.items@[k1])
            != item_def_id(u.items@[k2])
}

/// A method of a bare inherent impl is never linked to any declaration.
pub proof fn lemma_inherent_never_linked(u: Unit, k: int, decl: u64)
    requires
        unit_ids_distinct(u),
        0 <= k < u.items@.len(),
        u.items@[k] matches ItemLike::ImplMethod { of_trait: None, .. },
    ensures
        !impls_link(
            spec_analyze(u).method_impls,
            decl,
            u.items@[k]->ImplMethod_def_id,
        ),
{
    let d = u.items@[k]->ImplMethod_def_id;
    lemma_links_characterized(u, decl, d);
    if impls_link(spec_analyze(u).method_impls, decl, d) {
        let k2 = choose|k2: int|
            0 <= k2 < u.items@.len() && item_links(#[trigger] u.items@[k2], u.assoc@, decl, d);
        assert(item_def_id(u.items@[k2]) == Some(d));
        assert(item_def_id(u.items@[k]) == Some(d));
        if k2 != k {
            if k < k2 {
                assert(item_def_id(u.items@[k]) != item_def_id(u.items@[k2]));
            } else {
                assert(item_def_id(u.items@[k2]) != item_def_id(u.items@[k]));
            }
        }
    }
}

// ---------------------------------------------------------------------
// Synthetic code leaves no trace: a skipped node changes nothing.
// ---------------------------------------------------------------------

/// A declaration whose span is expansion-generated or synthetic leaves
/// every registry exactly as it was.
pub proof fn lemma_skip_item(r: RegistryModel, it: ItemLike, assoc: Seq<TraitAssoc>)
    requires
        item_span(it).spec_skipped(),
    ensures
        spec_item(r, it, assoc) == r,
{
}

/// An expression whose span is expansion-generated or synthetic leaves
/// every registry exactly as it was, together with its whole subtree.
pub proof fn lemma_skip_expr(r: RegistryModel, e: Expr, ctx: Option<u64>)
    requires
        e.span.spec_skipped(),
    ensures
        spec_walk_expr(r, e, ctx) == r,
{
}

// ---------------------------------------------------------------------
// Idempotence of the dump.
// ---------------------------------------------------------------------

/// Idempotence: analyzing the same unit twice yields byte-identical
/// dumps. The traversal is a pure fold over the unit and the dump a
/// pure rendering of the registry contents — no iteration order of any
/// hashed container can leak in, so the equality is definitional.
pub proof fn lemma_dump_idempotent(u: Unit)
    ensures
        crate::dump::spec_dump(spec_analyze(u)) == crate::dump::spec_dump(spec_analyze(u)),
{
}

} // verus!

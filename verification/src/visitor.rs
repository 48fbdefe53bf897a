//! The graph-construction traversal: one top-down pass over a unit's
//! item-like declarations and their bodies, tracking the enclosing
//! function, skipping synthetic code, classifying every call site and
//! linking implementations to trait method declarations.
//!
//! The meaning of the traversal is given by the `spec_*` fold below: a
//! pure function from a unit to registry contents, with the enclosing
//! function threaded through as an explicit context value. The
//! executable walk is proved to compute exactly that fold, or to abort
//! with a diagnostic — never to return a partial graph.

use vstd::prelude::*;
use crate::registry::{
    Call, Registry, RegistryModel, empty_model, spec_add_decl, spec_add_dynamic, spec_add_function,
    spec_add_impl, spec_add_static, spec_ensure_entry,
};
use crate::span::SpanData;
use crate::unit::{
    Expr, ExprKind, ItemLike, MethodResolution, PathTarget, ResolvedShape, TraitAssoc, Unit,
    spec_assoc_lookup,
};

verus! {

/// Analysis of a unit aborts instead of recording a wrong edge.
#[derive(Clone, Copy, PartialEq, Eq, Structural, Debug)]
pub enum AnalysisError {
    /// A method call resolved to a node kind the classifier has no rule
    /// for: the assumptions about the host representation are stale.
    UnrecognizedCalleeShape,
}

impl AnalysisError {
    /// The diagnostic the unit's analysis aborts with.
    pub fn message(&self) -> (r: &'static str)
        ensures
            r@ == "method call resolved to an unrecognized node shape"@,
    {
        match self {
            AnalysisError::UnrecognizedCalleeShape => {
                "method call resolved to an unrecognized node shape"
            },
        }
    }
}

/// The call record written for expression `e` under enclosing function
/// `ctx`; the caller-span slot is never filled by this analysis.
pub open spec fn call_record(e: Expr, ctx: Option<u64>, callee: u64, callee_span: SpanData) -> Call {
    Call {
        call_expr: e.hir_id,
        call_expr_span: e.span,
        caller: ctx,
        caller_span: None,
        callee,
        callee_span,
    }
}

/// What one expression node itself contributes, before its children are
/// visited: a static edge for a path that names a definition, and for
/// a method call the classification of the resolver's outcome — a
/// dynamic edge when only the trait method declaration is known, a
/// static edge when a concrete implementation, free item or foreign
/// item is, and no edge when resolution failed or left this unit. An
/// unrecognized shape contributes nothing here: the walk aborts on it
/// instead of recording anything.
pub open spec fn spec_expr_top(r: RegistryModel, e: Expr, ctx: Option<u64>) -> RegistryModel {
    match e.kind {
        ExprKind::PathRef(PathTarget::Def { def_id, def_span }) => spec_add_static(
            r,
            call_record(e, ctx, def_id, def_span),
        ),
        ExprKind::PathRef(PathTarget::NonDef) => r,
        ExprKind::MethodCall(MethodResolution::Unresolved) => r,
        ExprKind::MethodCall(
            MethodResolution::Resolved { callee, callee_span, shape },
        ) => match shape {
            ResolvedShape::TraitDecl => spec_add_dynamic(r, call_record(e, ctx, callee, callee_span)),
            ResolvedShape::ImplMethod => spec_add_static(r, call_record(e, ctx, callee, callee_span)),
            ResolvedShape::FreeItem => spec_add_static(r, call_record(e, ctx, callee, callee_span)),
            ResolvedShape::ForeignItem => spec_add_static(
                r,
                call_record(e, ctx, callee, callee_span),
            ),
            ResolvedShape::NotLocal => r,
            ResolvedShape::Unrecognized => r,
        },
        ExprKind::Other => r,
    }
}

/// Whether this expression node makes the analysis abort: a method call
/// resolved to an unrecognized node shape, on a node that is not
/// skipped as synthetic.
pub open spec fn spec_expr_top_aborts(e: Expr) -> bool {
    &&& !e.span.spec_skipped()
    &&& e.kind matches ExprKind::MethodCall(
        MethodResolution::Resolved { shape: ResolvedShape::Unrecognized, .. },
    )
}

/// Whether visiting this expression aborts the unit's analysis.
pub open spec fn spec_expr_aborts(e: Expr) -> bool
    decreases e, 0int,
{
    &&& !e.span.spec_skipped()
    &&& (spec_expr_top_aborts(e) || spec_exprs_abort(e.children@, 0))
}

/// Whether visiting the expressions of `s` from position `i` on aborts.
pub open spec fn spec_exprs_abort(s: Seq<Expr>, i: int) -> bool
    decreases s, s.len() - i,
{
    if i < 0 || i >= s.len() {
        false
    } else {
        spec_expr_aborts(s[i]) || spec_exprs_abort(s, i + 1)
    }
}

/// Visiting one expression: skipped entirely when its span is synthetic,
/// otherwise its own edge first, then its children in order, all under
/// the same enclosing function.
pub open spec fn spec_walk_expr(r: RegistryModel, e: Expr, ctx: Option<u64>) -> RegistryModel
    decreases e, 0int,
{
    if e.span.spec_skipped() {
        r
    } else {
        spec_walk_exprs(spec_expr_top(r, e, ctx), e.children@, 0, ctx)
    }
}

/// Visiting the expressions of `s` from position `i` on, left to right.
pub open spec fn spec_walk_exprs(r: RegistryModel, s: Seq<Expr>, i: int, ctx: Option<u64>) -> RegistryModel
    decreases s, s.len() - i,
{
    if i < 0 || i >= s.len() {
        r
    } else {
        spec_walk_exprs(spec_walk_expr(r, s[i], ctx), s, i + 1, ctx)
    }
}

/// Visiting one item-like declaration. A function-shaped declaration is
/// registered and becomes the enclosing function of its body; a trait
/// method with a default body is declaration, function and its own
/// implementation at once; an impl method of a trait implementation is
/// linked to the trait's declaration of the same name; expressions that
/// belong to no function are walked with no enclosing function.
pub open spec fn spec_item(r: RegistryModel, it: ItemLike, assoc: Seq<TraitAssoc>) -> RegistryModel {
    match it {
        ItemLike::Fn { def_id, span, body } => {
            if span.spec_skipped() {
                r
            } else {
                spec_walk_exprs(spec_add_function(r, def_id, span), body@, 0, Some(def_id))
            }
        },
        ItemLike::TraitMethod { def_id, span, has_default, default_body } => {
            if span.spec_skipped() {
                r
            } else if has_default {
                spec_walk_exprs(
                    spec_add_impl(
                        spec_add_function(spec_add_decl(r, def_id), def_id, span),
                        def_id,
                        def_id,
                    ),
                    default_body@,
                    0,
                    Some(def_id),
                )
            } else {
                spec_ensure_entry(spec_add_decl(r, def_id), def_id)
            }
        },
        ItemLike::TraitOther { span, body } => {
            if span.spec_skipped() {
                r
            } else {
                spec_walk_exprs(r, body@, 0, None)
            }
        },
        ItemLike::ImplMethod { def_id, span, name, of_trait, body } => {
            if span.spec_skipped() {
                r
            } else {
                let r1 = spec_add_function(r, def_id, span);
                let r2 = match of_trait {
                    Some(t) => match spec_assoc_lookup(assoc, t, name) {
                        Some(decl) => spec_add_impl(r1, decl, def_id),
                        None => r1,
                    },
                    None => r1,
                };
                spec_walk_exprs(r2, body@, 0, Some(def_id))
            }
        },
        ItemLike::ImplOther { span, body } => {
            if span.spec_skipped() {
                r
            } else {
                spec_walk_exprs(r, body@, 0, None)
            }
        },
        ItemLike::Other { span, body } => {
            if span.spec_skipped() {
                r
            } else {
                spec_walk_exprs(r, body@, 0, None)
            }
        },
    }
}

/// Whether visiting this item aborts the unit's analysis.
pub open spec fn spec_item_aborts(it: ItemLike) -> bool {
    match it {
        ItemLike::Fn { span, body, .. } => !span.spec_skipped() && spec_exprs_abort(body@, 0),
        ItemLike::TraitMethod { span, has_default, default_body, .. } => !span.spec_skipped()
            && has_default && spec_exprs_abort(default_body@, 0),
        ItemLike::TraitOther { span, body } => !span.spec_skipped() && spec_exprs_abort(body@, 0),
        ItemLike::ImplMethod { span, body, .. } => !span.spec_skipped() && spec_exprs_abort(
            body@,
            0,
        ),
        ItemLike::ImplOther { span, body } => !span.spec_skipped() && spec_exprs_abort(body@, 0),
        ItemLike::Other { span, body } => !span.spec_skipped() && spec_exprs_abort(body@, 0),
    }
}

/// Visiting the items of `items` from position `i` on.
pub open spec fn spec_items(
    r: RegistryModel,
    items: Seq<ItemLike>,
    assoc: Seq<TraitAssoc>,
    i: int,
) -> RegistryModel
    decreases items.len() - i,
{
    if i < 0 || i >= items.len() {
        r
    } else {
        spec_items(spec_item(r, items[i], assoc), items, assoc, i + 1)
    }
}

/// Whether analysing the unit aborts: some item reaches, outside
/// skipped subtrees, a method call whose resolved node shape the
/// classifier does not recognize.
pub open spec fn spec_unit_aborts(u: Unit) -> bool {
    exists|i: int| 0 <= i < u.items@.len() && spec_item_aborts(#[trigger] u.items@[i])
}

/// The registry contents that one full traversal of `u` produces.
pub open spec fn spec_analyze(u: Unit) -> RegistryModel {
    spec_items(empty_model(), u.items@, u.assoc@, 0)
}

/// The graph-construction visitor: owns the registry it fills during
/// exactly one traversal. The enclosing-function context is passed down
/// the walk as an explicit value, so the traversal is reentrant.
#[derive(Debug)]
pub struct CallgraphVisitor {
    pub registry: Registry,
}

impl CallgraphVisitor {
    /// A visitor with an empty registry.
    pub fn new() -> (v: CallgraphVisitor)
        ensures
            v.registry@ == empty_model(),
    {
        CallgraphVisitor { registry: Registry::new() }
    }

    /// Visits one expression node and everything below it.
    fn visit_expr(&mut self, e: &Expr, ctx: Option<u64>) -> (r: Result<(), AnalysisError>)
        ensures
            r.is_ok() == !spec_expr_aborts(*e),
            r.is_ok() ==> final(self).registry@ == spec_walk_expr(old(self).registry@, *e, ctx),
        decreases *e, 0int,
    {
        if e.span.skipped() {
            return Ok(());
        }
        match e.kind {
            ExprKind::PathRef(PathTarget::Def { def_id, def_span }) => {
                self.registry.add_static(
                    Call {
                        call_expr: e.hir_id,
                        call_expr_span: e.span,
                        caller: ctx,
                        caller_span: None,
                        callee: def_id,
                        callee_span: def_span,
                    },
                );
            },
            ExprKind::PathRef(PathTarget::NonDef) => {},
            ExprKind::MethodCall(MethodResolution::Unresolved) => {},
            ExprKind::MethodCall(MethodResolution::Resolved { callee, callee_span, shape }) => {
                let c = Call {
                    call_expr: e.hir_id,
                    call_expr_span: e.span,
                    caller: ctx,
                    caller_span: None,
                    callee,
                    callee_span,
                };
                match shape {
                    ResolvedShape::TraitDecl => {
                        self.registry.add_dynamic(c);
                    },
                    ResolvedShape::ImplMethod => {
                        self.registry.add_static(c);
                    },
                    ResolvedShape::FreeItem => {
                        self.registry.add_static(c);
                    },
                    ResolvedShape::ForeignItem => {
                        self.registry.add_static(c);
                    },
                    ResolvedShape::NotLocal => {},
                    ResolvedShape::Unrecognized => {
                        return Err(AnalysisError::UnrecognizedCalleeShape);
                    },
                }
            },
            ExprKind::Other => {},
        }
        proof {
            assert(self.registry@ == spec_expr_top(old(self).registry@, *e, ctx));
        }
        self.visit_body(&e.children, ctx)
    }

    /// Visits the expressions of one body in order, under one enclosing
    /// function.
    fn visit_body(&mut self, body: &Vec<Expr>, ctx: Option<u64>) -> (r: Result<
        (),
        AnalysisError,
    >)
        ensures
            r.is_ok() == !spec_exprs_abort(body@, 0),
            r.is_ok() ==> final(self).registry@ == spec_walk_exprs(old(self).registry@, body@, 0, ctx),
        decreases *body, body.len(),
    {
        let ghost r0 = self.registry@;
        let mut i: usize = 0;
        while i < body.len()
            invariant
                0 <= i <= body.len(),
                spec_walk_exprs(r0, body@, 0, ctx) == spec_walk_exprs(
                    self.registry@,
                    body@,
                    i as int,
                    ctx,
                ),
                spec_exprs_abort(body@, 0) == spec_exprs_abort(body@, i as int),
            decreases body.len() - i,
        {
            let res = self.visit_expr(&body[i], ctx);
            if let Err(err) = res {
                proof {
                    assert(spec_exprs_abort(body@, i as int));
                }
                return Err(err);
            }
            i += 1;
        }
        proof {
            assert(!spec_exprs_abort(body@, body@.len() as int));
            assert(spec_walk_exprs(self.registry@, body@, body@.len() as int, ctx)
                == self.registry@);
        }
        Ok(())
    }

    /// Visits one item-like declaration.
    fn visit_item(&mut self, it: &ItemLike, unit: &Unit) -> (r: Result<(), AnalysisError>)
        ensures
            r.is_ok() == !spec_item_aborts(*it),
            r.is_ok() ==> final(self).registry@ == spec_item(old(self).registry@, *it, unit.assoc@),
    {
        match it {
            ItemLike::Fn { def_id, span, body } => {
                if span.skipped() {
                    return Ok(());
                }
                self.registry.add_function(*def_id, *span);
                self.visit_body(body, Some(*def_id))
            },
            ItemLike::TraitMethod { def_id, span, has_default, default_body } => {
                if span.skipped() {
                    return Ok(());
                }
                if *has_default {
                    self.registry.add_decl(*def_id);
                    self.registry.add_function(*def_id, *span);
                    self.registry.add_impl(*def_id, *def_id);
                    self.visit_body(default_body, Some(*def_id))
                } else {
                    self.registry.add_decl(*def_id);
                    self.registry.ensure_entry(*def_id);
                    Ok(())
                }
            },
            ItemLike::TraitOther { span, body } => {
                if span.skipped() {
                    return Ok(());
                }
                self.visit_body(body, None)
            },
            ItemLike::ImplMethod { def_id, span, name, of_trait, body } => {
                if span.skipped() {
                    return Ok(());
                }
                self.registry.add_function(*def_id, *span);
                if let Some(t) = of_trait {
                    if let Some(decl) = unit.assoc_lookup(*t, *name) {
                        self.registry.add_impl(decl, *def_id);
                    }
                }
                self.visit_body(body, Some(*def_id))
            },
            ItemLike::ImplOther { span, body } => {
                if span.skipped() {
                    return Ok(());
                }
                self.visit_body(body, None)
            },
            ItemLike::Other { span, body } => {
                if span.skipped() {
                    return Ok(());
                }
                self.visit_body(body, None)
            },
        }
    }
}

/// Analyzes one fully type-checked unit: one traversal over a fresh
/// registry. Returns the filled visitor, or the diagnostic on which the
/// unit's analysis aborted — there is no partial graph.
pub fn analyze(unit: &Unit) -> (r: Result<CallgraphVisitor, AnalysisError>)
    ensures
        r.is_ok() == !spec_unit_aborts(*unit),
        r matches Ok(v) ==> v.registry@ == spec_analyze(*unit),
{
    let mut v = CallgraphVisitor::new();
    let ghost r0 = v.registry@;
    let mut i: usize = 0;
    while i < unit.items.len()
        invariant
            0 <= i <= unit.items.len(),
            spec_items(empty_model(), unit.items@, unit.assoc@, 0) == spec_items(
                v.registry@,
                unit.items@,
                unit.assoc@,
                i as int,
            ),
            spec_unit_aborts(*unit) == exists|j: int|
                i <= j < unit.items@.len() && spec_item_aborts(#[trigger] unit.items@[j]),
        decreases unit.items.len() - i,
    {
        let res = v.visit_item(&unit.items[i], unit);
        if let Err(err) = res {
            proof {
                assert(spec_item_aborts(unit.items@[i as int]));
                assert(spec_unit_aborts(*unit));
            }
            return Err(err);
        }
        proof {
            assert forall|j: int|
                i + 1 <= j < unit.items@.len() && spec_item_aborts(
                    #[trigger] unit.items@[j],
                ) implies i <= j < unit.items@.len() && spec_item_aborts(unit.items@[j]) by {}
        }
        i += 1;
    }
    proof {
        assert(spec_items(v.registry@, unit.items@, unit.assoc@, unit.items@.len() as int)
            == v.registry@);
        assert(!spec_unit_aborts(*unit));
    }
    Ok(v)
}

} // verus!

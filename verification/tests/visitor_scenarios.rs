//! End-to-end scenarios over the graph-construction traversal.

use callgraph::registry::Call;
use callgraph::span::SpanData;
use callgraph::unit::{
    AssocItem, Expr, ExprKind, ItemLike, MethodResolution, PathTarget, ResolvedShape, TraitAssoc,
    Unit,
};
use callgraph::visitor::{analyze, AnalysisError};

fn sp(lo: u32, hi: u32) -> SpanData {
    SpanData { lo, hi, from_expansion: false, dummy: false }
}

fn expansion_sp(lo: u32, hi: u32) -> SpanData {
    SpanData { lo, hi, from_expansion: true, dummy: false }
}

fn dummy_sp() -> SpanData {
    SpanData { lo: 0, hi: 0, from_expansion: false, dummy: true }
}

fn leaf(hir_id: u64, span: SpanData, kind: ExprKind) -> Expr {
    Expr { hir_id, span, kind, children: vec![] }
}

/// Trait method, one implementor, one call through a trait object:
/// functions are the impl method and the free function, the trait
/// method is declared, linked to its implementor, and the call is
/// dynamic, to the declaration.
#[test]
fn trait_object_call_is_dynamic() {
    // trait Shape { fn area(&self) -> f64; }    decl id 10, name 7
    // impl Shape for Circle { fn area ... }     impl method id 20
    // fn total(s: &dyn Shape) { s.area() }      free fn id 30, call expr 40
    let unit = Unit {
        items: vec![
            ItemLike::TraitMethod {
                def_id: 10,
                span: sp(0, 10),
                has_default: false,
                default_body: vec![],
            },
            ItemLike::ImplMethod {
                def_id: 20,
                span: sp(20, 30),
                name: 7,
                of_trait: Some(100),
                body: vec![],
            },
            ItemLike::Fn {
                def_id: 30,
                span: sp(40, 60),
                body: vec![leaf(
                    40,
                    sp(45, 55),
                    ExprKind::MethodCall(MethodResolution::Resolved {
                        callee: 10,
                        callee_span: sp(0, 10),
                        shape: ResolvedShape::TraitDecl,
                    }),
                )],
            },
        ],
        assoc: vec![TraitAssoc { trait_id: 100, items: vec![AssocItem { name: 7, def_id: 10 }] }],
    };
    let v = analyze(&unit).unwrap();
    let fn_ids: Vec<u64> = v.registry.functions.iter().map(|e| e.0).collect();
    assert_eq!(fn_ids, vec![20, 30]);
    assert_eq!(v.registry.method_decls, vec![10]);
    assert_eq!(v.registry.method_impls.len(), 1);
    assert_eq!(v.registry.method_impls[0].decl, 10);
    assert_eq!(v.registry.method_impls[0].impls, vec![20]);
    assert!(v.registry.static_calls.is_empty());
    assert_eq!(
        v.registry.dynamic_calls,
        vec![Call {
            call_expr: 40,
            call_expr_span: sp(45, 55),
            caller: Some(30),
            caller_span: None,
            callee: 10,
            callee_span: sp(0, 10),
        }]
    );
}

/// Two free functions, one calling the other by name: both registered,
/// one static edge, no dynamic edge.
#[test]
fn direct_call_is_static() {
    // fn helper() -> i32 { 1 }                  id 1
    // fn caller() -> i32 { helper() }           id 2, path expr 3
    let unit = Unit {
        items: vec![
            ItemLike::Fn { def_id: 1, span: sp(0, 10), body: vec![] },
            ItemLike::Fn {
                def_id: 2,
                span: sp(20, 40),
                body: vec![leaf(
                    3,
                    sp(25, 35),
                    ExprKind::PathRef(PathTarget::Def { def_id: 1, def_span: sp(0, 10) }),
                )],
            },
        ],
        assoc: vec![],
    };
    let v = analyze(&unit).unwrap();
    let fn_ids: Vec<u64> = v.registry.functions.iter().map(|e| e.0).collect();
    assert_eq!(fn_ids, vec![1, 2]);
    assert!(v.registry.method_decls.is_empty());
    assert!(v.registry.method_impls.is_empty());
    assert!(v.registry.dynamic_calls.is_empty());
    assert_eq!(
        v.registry.static_calls,
        vec![Call {
            call_expr: 3,
            call_expr_span: sp(25, 35),
            caller: Some(2),
            caller_span: None,
            callee: 1,
            callee_span: sp(0, 10),
        }]
    );
}

/// A concretely resolved method call is a static edge to the impl
/// method.
#[test]
fn concrete_method_call_is_static() {
    let unit = Unit {
        items: vec![
            ItemLike::ImplMethod {
                def_id: 20,
                span: sp(0, 10),
                name: 7,
                of_trait: Some(100),
                body: vec![],
            },
            ItemLike::Fn {
                def_id: 30,
                span: sp(20, 50),
                body: vec![leaf(
                    40,
                    sp(25, 45),
                    ExprKind::MethodCall(MethodResolution::Resolved {
                        callee: 20,
                        callee_span: sp(0, 10),
                        shape: ResolvedShape::ImplMethod,
                    }),
                )],
            },
        ],
        assoc: vec![TraitAssoc { trait_id: 100, items: vec![AssocItem { name: 7, def_id: 10 }] }],
    };
    let v = analyze(&unit).unwrap();
    assert!(v.registry.dynamic_calls.is_empty());
    assert_eq!(v.registry.static_calls.len(), 1);
    assert_eq!(v.registry.static_calls[0].callee, 20);
    assert_eq!(v.registry.static_calls[0].caller, Some(30));
}

/// A trait method with a default body is declaration, function and its
/// own implementation at once, and encloses the calls of that body.
#[test]
fn default_body_is_decl_and_function() {
    let unit = Unit {
        items: vec![ItemLike::TraitMethod {
            def_id: 10,
            span: sp(0, 30),
            has_default: true,
            default_body: vec![leaf(
                11,
                sp(5, 25),
                ExprKind::PathRef(PathTarget::Def { def_id: 99, def_span: sp(100, 110) }),
            )],
        }],
        assoc: vec![],
    };
    let v = analyze(&unit).unwrap();
    let fn_ids: Vec<u64> = v.registry.functions.iter().map(|e| e.0).collect();
    assert_eq!(fn_ids, vec![10]);
    assert_eq!(v.registry.method_decls, vec![10]);
    assert_eq!(v.registry.method_impls.len(), 1);
    assert_eq!(v.registry.method_impls[0].decl, 10);
    assert_eq!(v.registry.method_impls[0].impls, vec![10]);
    assert_eq!(v.registry.static_calls.len(), 1);
    assert_eq!(v.registry.static_calls[0].caller, Some(10));
}

/// A bodiless trait method leaves an empty entry in the map: declared
/// but never implemented in this unit.
#[test]
fn unimplemented_decl_has_empty_entry() {
    let unit = Unit {
        items: vec![ItemLike::TraitMethod {
            def_id: 10,
            span: sp(0, 10),
            has_default: false,
            default_body: vec![],
        }],
        assoc: vec![],
    };
    let v = analyze(&unit).unwrap();
    assert!(v.registry.functions.is_empty());
    assert_eq!(v.registry.method_decls, vec![10]);
    assert_eq!(v.registry.method_impls.len(), 1);
    assert_eq!(v.registry.method_impls[0].decl, 10);
    assert!(v.registry.method_impls[0].impls.is_empty());
}

/// A method of a bare inherent impl is a function but linked to nothing.
#[test]
fn inherent_impl_is_not_linked() {
    let unit = Unit {
        items: vec![ItemLike::ImplMethod {
            def_id: 20,
            span: sp(0, 10),
            name: 7,
            of_trait: None,
            body: vec![],
        }],
        assoc: vec![TraitAssoc { trait_id: 100, items: vec![AssocItem { name: 7, def_id: 10 }] }],
    };
    let v = analyze(&unit).unwrap();
    let fn_ids: Vec<u64> = v.registry.functions.iter().map(|e| e.0).collect();
    assert_eq!(fn_ids, vec![20]);
    assert!(v.registry.method_impls.is_empty());
}

/// A call outside every function, as in a constant's initializer, has
/// no caller.
#[test]
fn toplevel_call_has_no_caller() {
    let unit = Unit {
        items: vec![ItemLike::Other {
            span: sp(0, 20),
            body: vec![leaf(
                5,
                sp(2, 18),
                ExprKind::PathRef(PathTarget::Def { def_id: 1, def_span: sp(30, 40) }),
            )],
        }],
        assoc: vec![],
    };
    let v = analyze(&unit).unwrap();
    assert_eq!(v.registry.static_calls.len(), 1);
    assert_eq!(v.registry.static_calls[0].caller, None);
}

/// Expansion-generated and placeholder-span nodes are skipped with
/// their whole subtree: nothing of them reaches any registry.
#[test]
fn generated_code_is_excluded() {
    let call = |hir_id: u64| {
        leaf(
            hir_id,
            sp(2, 8),
            ExprKind::PathRef(PathTarget::Def { def_id: 1, def_span: sp(30, 40) }),
        )
    };
    let unit = Unit {
        items: vec![
            ItemLike::Fn { def_id: 2, span: expansion_sp(0, 10), body: vec![call(5)] },
            ItemLike::Fn { def_id: 3, span: dummy_sp(), body: vec![call(6)] },
            ItemLike::Fn {
                def_id: 4,
                span: sp(50, 90),
                body: vec![Expr {
                    hir_id: 7,
                    span: expansion_sp(55, 85),
                    kind: ExprKind::Other,
                    children: vec![call(8)],
                }],
            },
        ],
        assoc: vec![],
    };
    let v = analyze(&unit).unwrap();
    let fn_ids: Vec<u64> = v.registry.functions.iter().map(|e| e.0).collect();
    assert_eq!(fn_ids, vec![4]);
    assert!(v.registry.static_calls.is_empty());
    assert!(v.registry.dynamic_calls.is_empty());
}

/// Resolution failure and non-local resolutions record no edge at all.
#[test]
fn unresolved_and_nonlocal_record_nothing() {
    let unit = Unit {
        items: vec![ItemLike::Fn {
            def_id: 1,
            span: sp(0, 40),
            body: vec![
                leaf(2, sp(2, 8), ExprKind::MethodCall(MethodResolution::Unresolved)),
                leaf(
                    3,
                    sp(10, 18),
                    ExprKind::MethodCall(MethodResolution::Resolved {
                        callee: 90,
                        callee_span: sp(0, 0),
                        shape: ResolvedShape::NotLocal,
                    }),
                ),
                leaf(4, sp(20, 28), ExprKind::PathRef(PathTarget::NonDef)),
            ],
        }],
        assoc: vec![],
    };
    let v = analyze(&unit).unwrap();
    assert!(v.registry.static_calls.is_empty());
    assert!(v.registry.dynamic_calls.is_empty());
}

/// An unrecognized resolved-node shape aborts the unit's analysis.
#[test]
fn unrecognized_shape_aborts() {
    let unit = Unit {
        items: vec![ItemLike::Fn {
            def_id: 1,
            span: sp(0, 40),
            body: vec![leaf(
                2,
                sp(2, 8),
                ExprKind::MethodCall(MethodResolution::Resolved {
                    callee: 90,
                    callee_span: sp(0, 0),
                    shape: ResolvedShape::Unrecognized,
                }),
            )],
        }],
        assoc: vec![],
    };
    assert_eq!(analyze(&unit).unwrap_err(), AnalysisError::UnrecognizedCalleeShape);
}

/// An unrecognized shape inside skipped code aborts nothing.
#[test]
fn unrecognized_shape_in_generated_code_is_skipped() {
    let unit = Unit {
        items: vec![ItemLike::Fn {
            def_id: 1,
            span: sp(0, 40),
            body: vec![leaf(
                2,
                expansion_sp(2, 8),
                ExprKind::MethodCall(MethodResolution::Resolved {
                    callee: 90,
                    callee_span: sp(0, 0),
                    shape: ResolvedShape::Unrecognized,
                }),
            )],
        }],
        assoc: vec![],
    };
    assert!(analyze(&unit).is_ok());
}

/// Re-inserting an identical record is a silent no-op: the registries
/// are sets.
#[test]
fn duplicate_records_are_deduplicated() {
    let same_call = || {
        leaf(
            3,
            sp(25, 35),
            ExprKind::PathRef(PathTarget::Def { def_id: 1, def_span: sp(0, 10) }),
        )
    };
    let unit = Unit {
        items: vec![ItemLike::Fn { def_id: 2, span: sp(20, 40), body: vec![same_call(), same_call()] }],
        assoc: vec![],
    };
    let v = analyze(&unit).unwrap();
    assert_eq!(v.registry.static_calls.len(), 1);
}

/// Analyzing the same unit twice yields byte-identical dumps.
#[test]
fn repeated_analysis_dumps_identically() {
    let unit = || Unit {
        items: vec![
            ItemLike::TraitMethod {
                def_id: 10,
                span: sp(0, 10),
                has_default: false,
                default_body: vec![],
            },
            ItemLike::ImplMethod {
                def_id: 20,
                span: sp(20, 30),
                name: 7,
                of_trait: Some(100),
                body: vec![],
            },
            ItemLike::Fn {
                def_id: 30,
                span: sp(40, 60),
                body: vec![leaf(
                    40,
                    sp(45, 55),
                    ExprKind::MethodCall(MethodResolution::Resolved {
                        callee: 10,
                        callee_span: sp(0, 10),
                        shape: ResolvedShape::TraitDecl,
                    }),
                )],
            },
        ],
        assoc: vec![TraitAssoc { trait_id: 100, items: vec![AssocItem { name: 7, def_id: 10 }] }],
    };
    let d1 = analyze(&unit()).unwrap().dump();
    let d2 = analyze(&unit()).unwrap().dump();
    assert_eq!(d1, d2);
}

/// The dump renders every field of every registry, one line per entry.
#[test]
fn dump_renders_all_registries() {
    let unit = Unit {
        items: vec![
            ItemLike::TraitMethod {
                def_id: 10,
                span: sp(0, 10),
                has_default: false,
                default_body: vec![],
            },
            ItemLike::ImplMethod {
                def_id: 20,
                span: sp(20, 30),
                name: 7,
                of_trait: Some(100),
                body: vec![],
            },
            ItemLike::Fn {
                def_id: 30,
                span: sp(40, 60),
                body: vec![leaf(
                    40,
                    sp(45, 55),
                    ExprKind::MethodCall(MethodResolution::Resolved {
                        callee: 10,
                        callee_span: sp(0, 10),
                        shape: ResolvedShape::TraitDecl,
                    }),
                )],
            },
        ],
        assoc: vec![TraitAssoc { trait_id: 100, items: vec![AssocItem { name: 7, def_id: 10 }] }],
    };
    let d = analyze(&unit).unwrap().dump();
    let expected = "functions:\n\
                    fn 20 at 20..30\n\
                    fn 30 at 40..60\n\
                    method_decls:\n\
                    decl 10\n\
                    method_impls:\n\
                    impl 10 <- 20\n\
                    static_calls:\n\
                    dynamic_calls:\n\
                    call 40 at 45..55 from 30 at - to 10 at 0..10\n";
    assert_eq!(d, expected);
}

/// Re-registering an identifier is idempotent: the registry is a set
/// keyed on the identifier, and the first span stays.
#[test]
fn repeated_identifier_registers_once() {
    let unit = Unit {
        items: vec![
            ItemLike::Fn { def_id: 1, span: sp(0, 10), body: vec![] },
            ItemLike::Fn { def_id: 1, span: sp(20, 30), body: vec![] },
        ],
        assoc: vec![],
    };
    let v = analyze(&unit).unwrap();
    assert_eq!(v.registry.functions, vec![(1, sp(0, 10))]);
}

/// Among a trait's associated items, the first with the method's name
/// is the declaration linked to.
#[test]
fn first_matching_assoc_item_is_linked() {
    let unit = Unit {
        items: vec![ItemLike::ImplMethod {
            def_id: 20,
            span: sp(0, 10),
            name: 7,
            of_trait: Some(100),
            body: vec![],
        }],
        assoc: vec![TraitAssoc {
            trait_id: 100,
            items: vec![
                AssocItem { name: 9, def_id: 11 },
                AssocItem { name: 7, def_id: 10 },
                AssocItem { name: 7, def_id: 12 },
            ],
        }],
    };
    let v = analyze(&unit).unwrap();
    assert_eq!(v.registry.method_impls.len(), 1);
    assert_eq!(v.registry.method_impls[0].decl, 10);
    assert_eq!(v.registry.method_impls[0].impls, vec![20]);
}

/// An empty unit dumps empty registries under all five headings.
#[test]
fn empty_unit_dumps_empty_registries() {
    let unit = Unit { items: vec![], assoc: vec![] };
    let v = analyze(&unit).unwrap();
    assert!(v.registry.functions.is_empty());
    assert_eq!(
        v.dump(),
        "functions:\nmethod_decls:\nmethod_impls:\nstatic_calls:\ndynamic_calls:\n"
    );
}

/// Two implementors of one declaration are linked in traversal order.
#[test]
fn two_implementors_link_in_order() {
    let unit = Unit {
        items: vec![
            ItemLike::TraitMethod {
                def_id: 10,
                span: sp(0, 10),
                has_default: false,
                default_body: vec![],
            },
            ItemLike::ImplMethod {
                def_id: 20,
                span: sp(20, 30),
                name: 7,
                of_trait: Some(100),
                body: vec![],
            },
            ItemLike::ImplMethod {
                def_id: 21,
                span: sp(40, 50),
                name: 7,
                of_trait: Some(100),
                body: vec![],
            },
        ],
        assoc: vec![TraitAssoc { trait_id: 100, items: vec![AssocItem { name: 7, def_id: 10 }] }],
    };
    let v = analyze(&unit).unwrap();
    assert_eq!(v.registry.method_impls.len(), 1);
    assert_eq!(v.registry.method_impls[0].decl, 10);
    assert_eq!(v.registry.method_impls[0].impls, vec![20, 21]);
    assert!(v.dump().contains("impl 10 <- 20 21\n"));
}

/// The error the analysis aborts with names its cause.
#[test]
fn analysis_error_has_a_message() {
    assert_eq!(
        AnalysisError::UnrecognizedCalleeShape.message(),
        "method call resolved to an unrecognized node shape"
    );
}

/// Nested expressions are walked under the same enclosing function, and
/// a deeper subtree's calls are found.
#[test]
fn nested_expressions_keep_the_caller() {
    let unit = Unit {
        items: vec![ItemLike::Fn {
            def_id: 1,
            span: sp(0, 100),
            body: vec![Expr {
                hir_id: 2,
                span: sp(5, 95),
                kind: ExprKind::Other,
                children: vec![Expr {
                    hir_id: 3,
                    span: sp(10, 90),
                    kind: ExprKind::Other,
                    children: vec![leaf(
                        4,
                        sp(20, 80),
                        ExprKind::PathRef(PathTarget::Def { def_id: 9, def_span: sp(0, 0) }),
                    )],
                }],
            }],
        }],
        assoc: vec![],
    };
    let v = analyze(&unit).unwrap();
    assert_eq!(v.registry.static_calls.len(), 1);
    assert_eq!(v.registry.static_calls[0].caller, Some(1));
    assert_eq!(v.registry.static_calls[0].call_expr, 4);
}

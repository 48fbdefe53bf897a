//! The data model of one fully type-checked program unit, as the
//! traversal consumes it: every item-like declaration of the unit in
//! the order the host enumerates them, the expression trees of their
//! bodies with each call site's resolution outcome already attached,
//! and the associated-item table used to link implementations back to
//! trait method declarations.
//!
//! Definition identifiers and interned names are plain numbers: stable
//! handles that the host assigns to every declared item.

use vstd::prelude::*;
use crate::span::SpanData;

verus! {

/// The shape of the node a method call resolved to, as reported by the
/// host's instance resolver.
#[derive(Clone, Copy, PartialEq, Eq, Structural, Debug)]
pub enum ResolvedShape {
    /// A trait method declaration: only the trait method is known, not
    /// which implementor runs — the call dispatches dynamically.
    TraitDecl,
    /// A method of an impl block: one concrete implementation.
    ImplMethod,
    /// A free item with a body: one concrete implementation.
    FreeItem,
    /// An item of an extern block: a concrete, externally-defined target.
    ForeignItem,
    /// The resolved definition lives outside this unit; no node of it is
    /// available here.
    NotLocal,
    /// A node kind the classifier has no rule for: an internal error.
    Unrecognized,
}

/// What the instance resolver returned for one method-call expression.
#[derive(Clone, Copy, PartialEq, Eq, Structural, Debug)]
pub enum MethodResolution {
    /// The resolver could not pick any definition (e.g. the receiver's
    /// type is not concrete at this stage).
    Unresolved,
    /// The resolver picked a definition; `shape` says what kind of node
    /// that definition is.
    Resolved { callee: u64, callee_span: SpanData, shape: ResolvedShape },
}

/// What a path expression resolved to during name resolution.
#[derive(Clone, Copy, PartialEq, Eq, Structural, Debug)]
pub enum PathTarget {
    /// The path names a definition: the reference is recorded as a
    /// static edge.
    Def { def_id: u64, def_span: SpanData },
    /// The path resolved to something that is not a definition (a local,
    /// a primitive type, ...): nothing is recorded.
    NonDef,
}

/// One expression node of a body, with the sub-expressions it owns.
pub struct Expr {
    /// The node identifier of this expression within the unit.
    pub hir_id: u64,
    pub span: SpanData,
    pub kind: ExprKind,
    pub children: Vec<Expr>,
}

/// The expression kinds the traversal distinguishes; everything else is
/// `Other` and only contributes its children.
pub enum ExprKind {
    /// A bare name or qualified path in expression position.
    PathRef(PathTarget),
    /// Method-call syntax, with the instance resolver's outcome.
    MethodCall(MethodResolution),
    /// Any other expression.
    Other,
}

/// One item-like declaration, as the host's flat enumeration hands them
/// to the traversal (impl and trait members arrive as entries of their
/// own, not nested under their blocks).
pub enum ItemLike {
    /// A free function.
    Fn { def_id: u64, span: SpanData, body: Vec<Expr> },
    /// A trait method signature; `default_body` is empty and unused when
    /// `has_default` is false.
    TraitMethod { def_id: u64, span: SpanData, has_default: bool, default_body: Vec<Expr> },
    /// A trait member that is not a method (an associated const's
    /// initializer still holds expressions).
    TraitOther { span: SpanData, body: Vec<Expr> },
    /// A method of an impl block; `of_trait` names the trait the block
    /// implements, or is `None` for a bare inherent impl.
    ImplMethod { def_id: u64, span: SpanData, name: u64, of_trait: Option<u64>, body: Vec<Expr> },
    /// An impl member that is not a method.
    ImplOther { span: SpanData, body: Vec<Expr> },
    /// Any other item; its body covers expressions that live outside
    /// every function, such as a constant's initializer.
    Other { span: SpanData, body: Vec<Expr> },
}

/// One associated item of a trait, keyed by its interned name.
#[derive(Clone, Copy, PartialEq, Eq, Structural, Debug)]
pub struct AssocItem {
    pub name: u64,
    pub def_id: u64,
}

/// The associated items of one trait, as the host's query reports them.
pub struct TraitAssoc {
    pub trait_id: u64,
    pub items: Vec<AssocItem>,
}

/// One fully type-checked program unit.
pub struct Unit {
    /// Every item-like declaration of the unit, in enumeration order.
    pub items: Vec<ItemLike>,
    /// The associated-item table: for each trait the unit's impls refer
    /// to, its associated items by name.
    pub assoc: Vec<TraitAssoc>,
}

/// First associated item of trait `t` named `n`, scanning the table for
/// the first entry of `t`; `None` when the trait or the name is absent.
pub open spec fn spec_assoc_lookup(assoc: Seq<TraitAssoc>, t: u64, n: u64) -> Option<u64>
    decreases assoc.len(),
{
    if assoc.len() == 0 {
        None
    } else if assoc[0].trait_id == t {
        spec_assoc_item_lookup(assoc[0].items@, n)
    } else {
        spec_assoc_lookup(assoc.drop_first(), t, n)
    }
}

/// First item of `items` named `n`.
pub open spec fn spec_assoc_item_lookup(items: Seq<AssocItem>, n: u64) -> Option<u64>
    decreases items.len(),
{
    if items.len() == 0 {
        None
    } else if items[0].name == n {
        Some(items[0].def_id)
    } else {
        spec_assoc_item_lookup(items.drop_first(), n)
    }
}

/// Scans one trait's associated items for the first one named `n`.
fn assoc_item_find(items: &Vec<AssocItem>, n: u64) -> (r: Option<u64>)
    ensures
        r == spec_assoc_item_lookup(items@, n),
{
    proof {
        assert(items@.subrange(0, items@.len() as int) =~= items@);
    }
    let mut j: usize = 0;
    while j < items.len()
        invariant
            0 <= j <= items.len(),
            spec_assoc_item_lookup(items@, n) == spec_assoc_item_lookup(
                items@.subrange(j as int, items@.len() as int),
                n,
            ),
        decreases items.len() - j,
    {
        proof {
            assert(items@.subrange(j as int, items@.len() as int).drop_first()
                =~= items@.subrange(j + 1 as int, items@.len() as int));
            assert(items@.subrange(j as int, items@.len() as int)[0] == items@[j as int]);
        }
        if items[j].name == n {
            return Some(items[j].def_id);
        }
        j += 1;
    }
    proof {
        assert(items@.subrange(items@.len() as int, items@.len() as int).len() == 0);
    }
    None
}

impl Unit {
    /// Looks a trait method declaration up by the trait's identifier and
    /// the method's interned name, exactly as the linker asks for it.
    pub fn assoc_lookup(&self, t: u64, n: u64) -> (r: Option<u64>)
        ensures
            r == spec_assoc_lookup(self.assoc@, t, n),
    {
        proof {
            assert(self.assoc@.subrange(0, self.assoc@.len() as int) =~= self.assoc@);
        }
        let mut i: usize = 0;
        while i < self.assoc.len()
            invariant
                0 <= i <= self.assoc.len(),
                spec_assoc_lookup(self.assoc@, t, n) == spec_assoc_lookup(
                    self.assoc@.subrange(i as int, self.assoc@.len() as int),
                    t,
                    n,
                ),
            decreases self.assoc.len() - i,
        {
            proof {
                assert(self.assoc@.subrange(i as int, self.assoc@.len() as int).drop_first()
                    =~= self.assoc@.subrange(i + 1 as int, self.assoc@.len() as int));
            }
            if self.assoc[i].trait_id == t {
                proof {
                    assert(self.assoc@.subrange(i as int, self.assoc@.len() as int)[0]
                        == self.assoc@[i as int]);
                }
                return assoc_item_find(&self.assoc[i].items, n);
            }
            i += 1;
        }
        proof {
            assert(self.assoc@.subrange(self.assoc@.len() as int, self.assoc@.len() as int).len()
                == 0);
        }
        None
    }
}

} // verus!

//! The entity registry: the containers the traversal fills — functions,
//! trait method declarations, the declaration-to-implementation map, and
//! the static and dynamic call edges. Insertion has set/map semantics:
//! inserting what is already there is a silent no-op, and nothing is
//! ever removed.

use vstd::prelude::*;
use crate::span::SpanData;

verus! {

/// One call edge: the call expression's node and span, the enclosing
/// function if any (with an optional span slot that this analysis never
/// fills), and the callee with its span. Two records are equal exactly
/// when all fields match.
#[derive(Clone, Copy, PartialEq, Eq, Structural, Debug)]
pub struct Call {
    pub call_expr: u64,
    pub call_expr_span: SpanData,
    pub caller: Option<u64>,
    pub caller_span: Option<SpanData>,
    pub callee: u64,
    pub callee_span: SpanData,
}

/// One entry of the declaration-to-implementation map: a trait method
/// declaration and the implementations linked to it so far, in the
/// order the traversal found them.
#[derive(Debug)]
pub struct ImplsEntry {
    pub decl: u64,
    pub impls: Vec<u64>,
}

/// The mathematical contents of a registry.
#[verifier::ext_equal]
pub struct RegistryModel {
    pub functions: Seq<(u64, SpanData)>,
    pub method_decls: Seq<u64>,
    pub method_impls: Seq<(u64, Seq<u64>)>,
    pub static_calls: Seq<Call>,
    pub dynamic_calls: Seq<Call>,
}

/// The registry. Exclusively owned by one traversal: built empty,
/// filled during the walk, dumped, discarded.
#[derive(Debug)]
pub struct Registry {
    pub functions: Vec<(u64, SpanData)>,
    pub method_decls: Vec<u64>,
    pub method_impls: Vec<ImplsEntry>,
    pub static_calls: Vec<Call>,
    pub dynamic_calls: Vec<Call>,
}

impl View for Registry {
    type V = RegistryModel;

    open spec fn view(&self) -> RegistryModel {
        RegistryModel {
            functions: self.functions@,
            method_decls: self.method_decls@,
            method_impls: self.method_impls@.map_values(|e: ImplsEntry| (e.decl, e.impls@)),
            static_calls: self.static_calls@,
            dynamic_calls: self.dynamic_calls@,
        }
    }
}

/// Whether some function entry already carries this identifier; the
/// span is informational and does not take part in keying.
pub open spec fn spec_has_fn(fns: Seq<(u64, SpanData)>, id: u64) -> bool {
    exists|k: int| 0 <= k < fns.len() && fns[k].0 == id
}

/// Registering a function: a no-op when the identifier is known.
pub open spec fn spec_add_function(r: RegistryModel, id: u64, sp: SpanData) -> RegistryModel {
    if spec_has_fn(r.functions, id) {
        r
    } else {
        RegistryModel { functions: r.functions.push((id, sp)), ..r }
    }
}

/// Registering a trait method declaration: set semantics.
pub open spec fn spec_add_decl(r: RegistryModel, id: u64) -> RegistryModel {
    if r.method_decls.contains(id) {
        r
    } else {
        RegistryModel { method_decls: r.method_decls.push(id), ..r }
    }
}

/// Index of the first implementation-map entry keyed `k`, or -1.
pub open spec fn spec_impls_index(s: Seq<(u64, Seq<u64>)>, k: u64) -> int
    decreases s.len(),
{
    if s.len() == 0 {
        -1
    } else if s[0].0 == k {
        0
    } else {
        let rest = spec_impls_index(s.drop_first(), k);
        if rest < 0 {
            -1
        } else {
            rest + 1
        }
    }
}

/// Making sure the map has an entry for `decl`, adding an empty one if
/// none is there: what registering a bodiless trait method declaration
/// does, so that "declared but never implemented" is visible.
pub open spec fn spec_ensure_entry(r: RegistryModel, decl: u64) -> RegistryModel {
    if spec_impls_index(r.method_impls, decl) >= 0 {
        r
    } else {
        RegistryModel { method_impls: r.method_impls.push((decl, seq![])), ..r }
    }
}

/// Linking one implementation to a declaration: appended to the entry's
/// list (created if absent), a no-op when already linked.
pub open spec fn spec_add_impl(r: RegistryModel, decl: u64, id: u64) -> RegistryModel {
    let i = spec_impls_index(r.method_impls, decl);
    if i < 0 {
        RegistryModel { method_impls: r.method_impls.push((decl, seq![id])), ..r }
    } else if r.method_impls[i].1.contains(id) {
        r
    } else {
        RegistryModel {
            method_impls: r.method_impls.update(i, (decl, r.method_impls[i].1.push(id))),
            ..r
        }
    }
}

/// Recording a static call edge: set semantics.
pub open spec fn spec_add_static(r: RegistryModel, c: Call) -> RegistryModel {
    if r.static_calls.contains(c) {
        r
    } else {
        RegistryModel { static_calls: r.static_calls.push(c), ..r }
    }
}

/// Recording a dynamic call edge: set semantics.
pub open spec fn spec_add_dynamic(r: RegistryModel, c: Call) -> RegistryModel {
    if r.dynamic_calls.contains(c) {
        r
    } else {
        RegistryModel { dynamic_calls: r.dynamic_calls.push(c), ..r }
    }
}

/// The first index with key `k` is within bounds, carries `k`, and no
/// earlier entry does; -1 means no entry carries `k`.
pub proof fn lemma_impls_index(s: Seq<(u64, Seq<u64>)>, k: u64)
    ensures
        spec_impls_index(s, k) == -1 ==> forall|j: int| 0 <= j < s.len() ==> s[j].0 != k,
        spec_impls_index(s, k) >= 0 ==> spec_impls_index(s, k) < s.len() && s[spec_impls_index(
            s,
            k,
        )].0 == k && forall|j: int| 0 <= j < spec_impls_index(s, k) ==> s[j].0 != k,
    decreases s.len(),
{
    if s.len() > 0 && s[0].0 != k {
        lemma_impls_index(s.drop_first(), k);
        let rest = spec_impls_index(s.drop_first(), k);
        if rest >= 0 {
            assert forall|j: int| 0 <= j < rest + 1 implies s[j].0 != k by {
                if j > 0 {
                    assert(s.drop_first()[j - 1].0 != k);
                }
            }
        } else {
            assert forall|j: int| 0 <= j < s.len() implies s[j].0 != k by {
                if j > 0 {
                    assert(s.drop_first()[j - 1].0 != k);
                }
            }
        }
    }
}

impl Registry {
    /// An empty registry, as each traversal starts with.
    pub fn new() -> (r: Registry)
        ensures
            r@ == empty_model(),
    {
        let r = Registry {
            functions: Vec::new(),
            method_decls: Vec::new(),
            method_impls: Vec::new(),
            static_calls: Vec::new(),
            dynamic_calls: Vec::new(),
        };
        proof {
            assert(r@ =~= empty_model());
        }
        r
    }

    /// Registers a function definition, keyed by its identifier.
    pub fn add_function(&mut self, id: u64, sp: SpanData)
        ensures
            final(self)@ == spec_add_function(old(self)@, id, sp),
    {
        let mut k: usize = 0;
        while k < self.functions.len()
            invariant
                0 <= k <= self.functions.len(),
                forall|j: int| 0 <= j < k ==> self.functions@[j].0 != id,
            decreases self.functions.len() - k,
        {
            if self.functions[k].0 == id {
                proof {
                    assert(spec_has_fn(self.functions@, id));
                }
                return ;
            }
            k += 1;
        }
        proof {
            assert(!spec_has_fn(self.functions@, id));
        }
        self.functions.push((id, sp));
        proof {
            assert(self@ =~= spec_add_function(old(self)@, id, sp));
        }
    }

    /// Registers a trait method declaration.
    pub fn add_decl(&mut self, id: u64)
        ensures
            final(self)@ == spec_add_decl(old(self)@, id),
    {
        let mut k: usize = 0;
        while k < self.method_decls.len()
            invariant
                0 <= k <= self.method_decls.len(),
                forall|j: int| 0 <= j < k ==> self.method_decls@[j] != id,
            decreases self.method_decls.len() - k,
        {
            if self.method_decls[k] == id {
                proof {
                    assert(old(self)@.method_decls.contains(id));
                }
                return ;
            }
            k += 1;
        }
        proof {
            assert(!old(self)@.method_decls.contains(id));
        }
        self.method_decls.push(id);
        proof {
            assert(self@ =~= spec_add_decl(old(self)@, id));
        }
    }
    /// Makes sure the implementation map has an entry for `decl`.
    pub fn ensure_entry(&mut self, decl: u64)
        ensures
            final(self)@ == spec_ensure_entry(old(self)@, decl),
    {
        proof {
            lemma_impls_index(self@.method_impls, decl);
        }
        let mut k: usize = 0;
        while k < self.method_impls.len()
            invariant
                0 <= k <= self.method_impls.len(),
                forall|j: int| 0 <= j < k ==> self@.method_impls[j].0 != decl,
            decreases self.method_impls.len() - k,
        {
            if self.method_impls[k].decl == decl {
                proof {
                    lemma_impls_index(self@.method_impls, decl);
                    assert(self@.method_impls[k as int].0 == decl);
                }
                return ;
            }
            k += 1;
        }
        proof {
            lemma_impls_index(self@.method_impls, decl);
            if spec_impls_index(self@.method_impls, decl) >= 0 {
                assert(self@.method_impls[spec_impls_index(self@.method_impls, decl)].0 == decl);
                assert(false);
            }
        }
        self.method_impls.push(ImplsEntry { decl, impls: Vec::new() });
        proof {
            assert(self@ =~= spec_ensure_entry(old(self)@, decl));
        }
    }

    /// Links implementation `id` to declaration `decl`.
    pub fn add_impl(&mut self, decl: u64, id: u64)
        ensures
            final(self)@ == spec_add_impl(old(self)@, decl, id),
    {
        let ghost m0 = self@.method_impls;
        let ghost raw0 = self.method_impls@;
        let mut k: usize = 0;
        while k < self.method_impls.len()
            invariant
                0 <= k <= self.method_impls.len(),
                self@ == old(self)@,
                m0 == self@.method_impls,
                raw0 == self.method_impls@,
                forall|j: int| 0 <= j < k ==> self@.method_impls[j].0 != decl,
            decreases self.method_impls.len() - k,
        {
            if self.method_impls[k].decl == decl {
                proof {
                    lemma_impls_index(m0, decl);
                    assert(m0[k as int].0 == decl);
                    assert(spec_impls_index(m0, decl) == k);
                }
                let mut entry = self.method_impls.remove(k);
                let ghost l0 = entry.impls@;
                let mut t: usize = 0;
                let mut found = false;
                while t < entry.impls.len()
                    invariant
                        0 <= t <= entry.impls.len(),
                        l0 == entry.impls@,
                        found == exists|j: int| 0 <= j < t && entry.impls@[j] == id,
                    decreases entry.impls.len() - t,
                {
                    if entry.impls[t] == id {
                        found = true;
                        proof {
                            assert(entry.impls@[t as int] == id);
                        }
                    }
                    t += 1;
                }
                proof {
                    assert(found == l0.contains(id));
                }
                if !found {
                    entry.impls.push(id);
                }
                self.method_impls.insert(k, entry);
                proof {
                    let raw1 = self.method_impls@;
                    assert(raw1.len() == raw0.len());
                    assert forall|j: int| 0 <= j < raw0.len() && j != k implies raw1[j] == raw0[j]
                    by {
                        if j < k {
                            assert(raw0.remove(k as int)[j] == raw0[j]);
                        } else {
                            assert(raw0.remove(k as int)[j - 1] == raw0[j]);
                        }
                    }
                    if l0.contains(id) {
                        assert(raw1[k as int] == raw0[k as int]);
                        assert(raw1 =~= raw0);
                        assert(self@ =~= old(self)@);
                    } else {
                        assert(raw1[k as int].decl == decl);
                        assert(raw1[k as int].impls@ == l0.push(id));
                        let want = m0.update(k as int, (decl, l0.push(id)));
                        assert forall|j: int| 0 <= j < m0.len() implies self@.method_impls[j]
                            == want[j] by {
                            assert(self@.method_impls[j] == (raw1[j].decl, raw1[j].impls@));
                        }
                        assert(self@.method_impls =~= want);
                    }
                    assert(self@ =~= spec_add_impl(old(self)@, decl, id));
                }
                return ;
            }
            k += 1;
        }
        proof {
            lemma_impls_index(m0, decl);
            if spec_impls_index(m0, decl) >= 0 {
                assert(m0[spec_impls_index(m0, decl)].0 == decl);
                assert(false);
            }
        }
        let mut impls = Vec::new();
        impls.push(id);
        self.method_impls.push(ImplsEntry { decl, impls });
        proof {
            assert(impls@ =~= seq![id]);
            assert(self@ =~= spec_add_impl(old(self)@, decl, id));
        }
    }

    /// Records a static call edge.
    pub fn add_static(&mut self, c: Call)
        ensures
            final(self)@ == spec_add_static(old(self)@, c),
    {
        let mut k: usize = 0;
        while k < self.static_calls.len()
            invariant
                0 <= k <= self.static_calls.len(),
                forall|j: int| 0 <= j < k ==> self.static_calls@[j] != c,
            decreases self.static_calls.len() - k,
        {
            if self.static_calls[k] == c {
                proof {
                    assert(old(self)@.static_calls.contains(c));
                }
                return ;
            }
            k += 1;
        }
        proof {
            assert(!old(self)@.static_calls.contains(c));
        }
        self.static_calls.push(c);
        proof {
            assert(self@ =~= spec_add_static(old(self)@, c));
        }
    }

    /// Records a dynamic call edge.
    pub fn add_dynamic(&mut self, c: Call)
        ensures
            final(self)@ == spec_add_dynamic(old(self)@, c),
    {
        let mut k: usize = 0;
        while k < self.dynamic_calls.len()
            invariant
                0 <= k <= self.dynamic_calls.len(),
                forall|j: int| 0 <= j < k ==> self.dynamic_calls@[j] != c,
            decreases self.dynamic_calls.len() - k,
        {
            if self.dynamic_calls[k] == c {
                proof {
                    assert(old(self)@.dynamic_calls.contains(c));
                }
                return ;
            }
            k += 1;
        }
        proof {
            assert(!old(self)@.dynamic_calls.contains(c));
        }
        self.dynamic_calls.push(c);
        proof {
            assert(self@ =~= spec_add_dynamic(old(self)@, c));
        }
    }
}

/// The registry every traversal starts from: all containers empty.
pub open spec fn empty_model() -> RegistryModel {
    RegistryModel {
        functions: seq![],
        method_decls: seq![],
        method_impls: seq![],
        static_calls: seq![],
        dynamic_calls: seq![],
    }
}

} // verus!

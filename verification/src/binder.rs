//! The binder state and its operations: the scope tree and symbol table
//! primitives, the conflict/exclusion engine and the hoisting resolver.
//!
//! Every operation has a pure model (`m_*`) over the state's view; the
//! executable operation's contract says it computes exactly the model's
//! result. Binding is thereby a deterministic function of the visit order.

use vstd::prelude::*;

use crate::ast::Span;
use crate::classify::{BindingRule, DuplicatePolicy};
use crate::conflict::{conflicts, spec_conflicts};
use crate::flags::{ScopeFlags, SymbolFlags};
use crate::state::{
    table_wf, scope_wf, view_seq, lemma_view_seq_push, lemma_view_seq_update, Binding, BinderV,
    Diagnostic, Resolution, Scope, ScopeV, Symbol, SymbolV,
};

verus! {

/// The position of the first entry for `name` in a binding table, if any.
pub open spec fn find_name(bindings: Seq<Binding>, name: Seq<char>) -> Option<int>
    decreases bindings.len(),
{
    if bindings.len() == 0 {
        None
    } else if bindings[0].name@ == name {
        Some(0int)
    } else {
        match find_name(bindings.drop_first(), name) {
            Some(i) => Some(i + 1),
            None => None,
        }
    }
}

/// `find_name` returns the first matching position: a match in range with no
/// match before it, or nothing when no entry matches.
pub proof fn lemma_find_name(bindings: Seq<Binding>, name: Seq<char>)
    ensures
        match find_name(bindings, name) {
            Some(i) => 0 <= i < bindings.len() && bindings[i].name@ == name && (forall|j: int|
                0 <= j < i ==> bindings[j].name@ != name),
            None => forall|j: int| 0 <= j < bindings.len() ==> bindings[j].name@ != name,
        },
    decreases bindings.len(),
{
    if bindings.len() > 0 && bindings[0].name@ != name {
        let rest = bindings.drop_first();
        lemma_find_name(rest, name);
        assert forall|j: int| 0 <= j < rest.len() implies rest[j] == bindings[j + 1] by {}
        match find_name(rest, name) {
            Some(i) => {
                assert(bindings[i + 1].name@ == name);
                assert forall|j: int| 0 <= j < i + 1 implies bindings[j].name@ != name by {
                    if j > 0 {
                        assert(rest[j - 1].name@ != name);
                    }
                }
            },
            None => {
                assert forall|j: int| 0 <= j < bindings.len() implies bindings[j].name@ != name by {
                    if j > 0 {
                        assert(rest[j - 1].name@ != name);
                    }
                }
            },
        }
    }
}

/// The binder state: the scope tree, the symbol table, the recorded
/// conflicts and the identifier-resolution side table.
pub struct Binder {
    scopes: Vec<Scope>,
    symbols: Vec<Symbol>,
    diagnostics: Vec<Diagnostic>,
    resolutions: Vec<Resolution>,
    typescript: bool,
}

impl View for Binder {
    type V = BinderV;

    closed spec fn view(&self) -> BinderV {
        BinderV {
            scopes: view_seq(self.scopes@),
            symbols: view_seq(self.symbols@),
            diagnostics: self.diagnostics@,
            resolutions: self.resolutions@,
            typescript: self.typescript,
        }
    }
}

/// A fresh state: one root scope, a hoisting boundary, strict when the
/// program is.
pub open spec fn m_new(typescript: bool, strict: bool) -> BinderV {
    BinderV {
        scopes: seq![
            ScopeV {
                parent: None,
                flags: ScopeFlags {
                    top: true,
                    strict_mode: strict,
                    ..ScopeFlags::spec_empty()
                },
                bindings: Seq::empty(),
                ledger: Seq::empty(),
            },
        ],
        symbols: Seq::empty(),
        diagnostics: Seq::empty(),
        resolutions: Seq::empty(),
        typescript: typescript,
    }
}

/// A new scope under `parent`, inheriting strict mode.
pub open spec fn m_create_scope(bv: BinderV, parent: usize, flags: ScopeFlags) -> (BinderV, usize) {
    let child = ScopeV {
        parent: Some(parent),
        flags: ScopeFlags {
            strict_mode: flags.strict_mode || bv.scopes[parent as int].flags.strict_mode,
            ..flags
        },
        bindings: Seq::empty(),
        ledger: Seq::empty(),
    };
    (BinderV { scopes: bv.scopes.push(child), ..bv }, bv.scopes.len() as usize)
}

/// The scope's flags tagged with the accessor kind of a later-discovered
/// enclosing property.
pub open spec fn m_mark_accessor(bv: BinderV, scope: usize, getter: bool, setter: bool) -> BinderV {
    let s = bv.scopes[scope as int];
    let updated = ScopeV {
        flags: ScopeFlags {
            get_accessor: s.flags.get_accessor || getter,
            set_accessor: s.flags.set_accessor || setter,
            ..s.flags
        },
        ..s
    };
    BinderV { scopes: bv.scopes.update(scope as int, updated), ..bv }
}

impl Binder {
    /// Well-formedness of the state; see [`BinderV::wf`].
    pub open spec fn wf(self) -> bool {
        self@.wf()
    }

    /// A fresh binder for one program.
    pub fn new(typescript: bool, strict: bool) -> (b: Binder)
        ensures
            b@ == m_new(typescript, strict),
            b.wf(),
    {
        let root = Scope {
            parent: None,
            flags: ScopeFlags {
                top: true,
                strict_mode: strict,
                ..ScopeFlags::empty()
            },
            bindings: Vec::new(),
            ledger: Vec::new(),
        };
        let mut scopes: Vec<Scope> = Vec::new();
        scopes.push(root);
        let b = Binder {
            scopes,
            symbols: Vec::new(),
            diagnostics: Vec::new(),
            resolutions: Vec::new(),
            typescript,
        };
        proof {
            assert(b@.scopes =~~= m_new(typescript, strict).scopes);
            assert(b@ =~~= m_new(typescript, strict));
        }
        b
    }

    /// The number of scopes.
    pub fn scope_count(&self) -> (n: usize)
        ensures
            n == self@.scopes.len(),
    {
        self.scopes.len()
    }

    /// The number of symbols.
    pub fn symbol_count(&self) -> (n: usize)
        ensures
            n == self@.symbols.len(),
    {
        self.symbols.len()
    }

    /// The number of recorded duplicate-binding conflicts.
    pub fn diagnostic_count(&self) -> (n: usize)
        ensures
            n == self@.diagnostics.len(),
    {
        self.diagnostics.len()
    }

    /// Creates a scope under `parent` and returns its identity.
    pub fn create_scope(&mut self, parent: usize, flags: ScopeFlags) -> (id: usize)
        requires
            old(self).wf(),
            parent < old(self)@.scopes.len(),
        ensures
            final(self)@ == m_create_scope(old(self)@, parent, flags).0,
            id == m_create_scope(old(self)@, parent, flags).1,
            id == old(self)@.scopes.len(),
            final(self).wf(),
    {
        let id = self.scopes.len();
        let strict = flags.strict_mode || self.scopes[parent].flags.strict_mode;
        let child = Scope {
            parent: Some(parent),
            flags: ScopeFlags { strict_mode: strict, ..flags },
            bindings: Vec::new(),
            ledger: Vec::new(),
        };
        self.scopes.push(child);
        proof {
            lemma_view_seq_push(old(self).scopes@, self.scopes@[id as int]);
            assert(self@.scopes =~~= m_create_scope(old(self)@, parent, flags).0.scopes);
            assert(self@ =~~= m_create_scope(old(self)@, parent, flags).0);
        }
        id
    }

    /// Tags `scope` with an accessor kind once the enclosing property's kind
    /// is known.
    pub fn mark_accessor(&mut self, scope: usize, getter: bool, setter: bool)
        requires
            old(self).wf(),
            scope < old(self)@.scopes.len(),
        ensures
            final(self)@ == m_mark_accessor(old(self)@, scope, getter, setter),
            final(self)@.scopes.len() == old(self)@.scopes.len(),
            final(self).wf(),
    {
        let g = self.scopes[scope].flags.get_accessor || getter;
        let s = self.scopes[scope].flags.set_accessor || setter;
        self.scopes[scope].flags.get_accessor = g;
        self.scopes[scope].flags.set_accessor = s;
        proof {
            assert(self.scopes@ =~= old(self).scopes@.update(
                scope as int,
                self.scopes@[scope as int],
            ));
            lemma_view_seq_update(old(self).scopes@, scope as int, self.scopes@[scope as int]);
            assert(self@.scopes =~~= m_mark_accessor(old(self)@, scope, getter, setter).scopes);
            assert(self@ =~~= m_mark_accessor(old(self)@, scope, getter, setter));
        }
    }
}


/// A fresh symbol appended to the table.
pub open spec fn m_create_symbol(
    bv: BinderV,
    span: Span,
    name: String,
    flags: SymbolFlags,
    excludes: SymbolFlags,
    scope: Option<usize>,
) -> (BinderV, usize) {
    let sym = SymbolV {
        name: name,
        span: span,
        flags: flags,
        excludes: excludes,
        scope: scope,
        references: Seq::empty(),
        no_side_effects: false,
    };
    (BinderV { symbols: bv.symbols.push(sym), ..bv }, bv.symbols.len() as usize)
}

/// A repeated declaration merged into an existing symbol: the new flags and
/// mask are unioned in.
pub open spec fn m_merge_symbol(
    bv: BinderV,
    sym: usize,
    flags: SymbolFlags,
    excludes: SymbolFlags,
) -> BinderV {
    let s = bv.symbols[sym as int];
    BinderV {
        symbols: bv.symbols.update(
            sym as int,
            SymbolV {
                flags: s.flags.spec_union(flags),
                excludes: s.excludes.spec_union(excludes),
                ..s
            },
        ),
        ..bv
    }
}

/// The symbol's owning scope rewritten; used when hoisting relocates a
/// function-scoped binding to its boundary.
pub open spec fn m_set_symbol_scope(bv: BinderV, sym: usize, scope: usize) -> BinderV {
    let s = bv.symbols[sym as int];
    BinderV {
        symbols: bv.symbols.update(sym as int, SymbolV { scope: Some(scope), ..s }),
        ..bv
    }
}

/// A table with `name` mapped to `sym`: the existing entry is overwritten, or
/// a new entry is appended. A name never maps to two symbols at once.
pub open spec fn table_set(t: Seq<Binding>, name: String, sym: usize) -> Seq<Binding> {
    match find_name(t, name@) {
        Some(i) => t.update(i, Binding { name: name, symbol: sym }),
        None => t.push(Binding { name: name, symbol: sym }),
    }
}

/// A table with the entry for `name` removed, if one exists.
pub open spec fn table_remove(t: Seq<Binding>, name: Seq<char>) -> Seq<Binding> {
    match find_name(t, name) {
        Some(i) => t.remove(i),
        None => t,
    }
}

/// Setting a name preserves table well-formedness.
pub proof fn lemma_table_set_wf(t: Seq<Binding>, name: String, sym: usize, n: int)
    requires
        table_wf(t, n),
        (sym as int) < n,
    ensures
        table_wf(table_set(t, name, sym), n),
{
    lemma_find_name(t, name@);
    let r = table_set(t, name, sym);
    match find_name(t, name@) {
        Some(i) => {
            assert forall|a: int, b: int| 0 <= a < b < r.len() implies r[a].name@ != r[b].name@ by {
                if a != i && b != i {
                    assert(r[a] == t[a] && r[b] == t[b]);
                }
            }
        },
        None => {
            assert forall|a: int, b: int| 0 <= a < b < r.len() implies r[a].name@ != r[b].name@ by {
                if b == t.len() as int {
                    assert(r[a] == t[a]);
                    assert(t[a].name@ != name@);
                }
            }
        },
    }
}

/// Removing a name preserves table well-formedness.
pub proof fn lemma_table_remove_wf(t: Seq<Binding>, name: Seq<char>, n: int)
    requires
        table_wf(t, n),
    ensures
        table_wf(table_remove(t, name), n),
{
    lemma_find_name(t, name);
    match find_name(t, name) {
        Some(i) => {
            let r = t.remove(i);
            assert forall|a: int, b: int| 0 <= a < b < r.len() implies r[a].name@ != r[b].name@ by {
                let oa = if a < i { a } else { a + 1 };
                let ob = if b < i { b } else { b + 1 };
                assert(r[a] == t[oa] && r[b] == t[ob]);
            }
            assert forall|a: int| 0 <= a < r.len() implies #[trigger] r[a].symbol < n by {
                let oa = if a < i { a } else { a + 1 };
                assert(r[a] == t[oa]);
            }
        },
        None => {},
    }
}

/// The scope's live binding table with `name` mapped to `sym`.
pub open spec fn m_add_binding(bv: BinderV, scope: usize, name: String, sym: usize) -> BinderV {
    let s = bv.scopes[scope as int];
    BinderV {
        scopes: bv.scopes.update(
            scope as int,
            ScopeV { bindings: table_set(s.bindings, name, sym), ..s },
        ),
        ..bv
    }
}

/// The scope's live binding table with the entry for `name` removed.
pub open spec fn m_remove_binding(bv: BinderV, scope: usize, name: Seq<char>) -> BinderV {
    let s = bv.scopes[scope as int];
    BinderV {
        scopes: bv.scopes.update(
            scope as int,
            ScopeV { bindings: table_remove(s.bindings, name), ..s },
        ),
        ..bv
    }
}

/// The scope's hoisting ledger with `name` recorded as hoisted through it.
pub open spec fn m_record_ledger(bv: BinderV, scope: usize, name: String, sym: usize) -> BinderV {
    let s = bv.scopes[scope as int];
    BinderV {
        scopes: bv.scopes.update(
            scope as int,
            ScopeV { ledger: table_set(s.ledger, name, sym), ..s },
        ),
        ..bv
    }
}

/// A duplicate-binding conflict appended to the record.
pub open spec fn m_push_diagnostic(
    bv: BinderV,
    span: Span,
    name: String,
    existing: usize,
) -> BinderV {
    BinderV {
        diagnostics: bv.diagnostics.push(Diagnostic { span: span, name: name, existing: existing }),
        ..bv
    }
}

/// A resolution appended to the side table.
pub open spec fn m_push_resolution(bv: BinderV, node: usize, symbol: Option<usize>) -> BinderV {
    BinderV {
        resolutions: bv.resolutions.push(Resolution { node: node, symbol: symbol }),
        ..bv
    }
}

/// The symbol marked as having a no-side-effects initializer.
pub open spec fn m_mark_no_side_effects(bv: BinderV, sym: usize) -> BinderV {
    let s = bv.symbols[sym as int];
    BinderV {
        symbols: bv.symbols.update(sym as int, SymbolV { no_side_effects: true, ..s }),
        ..bv
    }
}

/// A use site appended to the symbol's reference list.
pub open spec fn m_add_reference(bv: BinderV, sym: usize, node: usize) -> BinderV {
    let s = bv.symbols[sym as int];
    BinderV {
        symbols: bv.symbols.update(
            sym as int,
            SymbolV { references: s.references.push(node), ..s },
        ),
        ..bv
    }
}

/// Finds the position of `name` in a table.
fn table_find(t: &Vec<Binding>, name: &String) -> (r: Option<usize>)
    ensures
        match r {
            Some(u) => find_name(t@, name@) == Some(u as int),
            None => find_name(t@, name@) is None,
        },
{
    let ghost g = t@;
    let mut i: usize = 0;
    while i < t.len()
        invariant
            i <= t@.len(),
            t@ == g,
            forall|j: int| 0 <= j < i ==> t@[j].name@ != name@,
        decreases t@.len() - i,
    {
        if t[i].name == *name {
            proof {
                lemma_find_name(t@, name@);
            }
            return Some(i);
        }
        i = i + 1;
    }
    proof {
        lemma_find_name(t@, name@);
    }
    None
}


/// The symbol a table maps `name` to, if any.
pub open spec fn table_get(t: Seq<Binding>, name: Seq<char>) -> Option<usize> {
    match find_name(t, name) {
        Some(i) => Some(t[i].symbol),
        None => None,
    }
}

/// Reads the symbol a table maps `name` to.
fn table_get_exec(t: &Vec<Binding>, name: &String) -> (r: Option<usize>)
    ensures
        r == table_get(t@, name@),
{
    let idx = table_find(t, name);
    proof {
        lemma_find_name(t@, name@);
    }
    match idx {
        Some(i) => Some(t[i].symbol),
        None => None,
    }
}

impl Binder {
    /// Creates a symbol owned by `scope` (or unattached) and returns its
    /// identity.
    pub fn create_symbol(
        &mut self,
        span: Span,
        name: &String,
        flags: SymbolFlags,
        excludes: SymbolFlags,
        scope: Option<usize>,
    ) -> (sym: usize)
        requires
            old(self).wf(),
            match scope {
                Some(k) => k < old(self)@.scopes.len(),
                None => true,
            },
        ensures
            final(self)@ == m_create_symbol(old(self)@, span, *name, flags, excludes, scope).0,
            sym == m_create_symbol(old(self)@, span, *name, flags, excludes, scope).1,
            sym == old(self)@.symbols.len(),
            final(self).wf(),
    {
        let sym = self.symbols.len();
        self.symbols.push(
            Symbol {
                name: name.clone(),
                span,
                flags,
                excludes,
                scope,
                references: Vec::new(),
                no_side_effects: false,
            },
        );
        proof {
            lemma_view_seq_push(old(self).symbols@, self.symbols@[sym as int]);
            assert(self@.symbols[sym as int] =~~= m_create_symbol(
                old(self)@,
                span,
                *name,
                flags,
                excludes,
                scope,
            ).0.symbols[sym as int]);
            assert(self@.symbols =~~= m_create_symbol(
                old(self)@,
                span,
                *name,
                flags,
                excludes,
                scope,
            ).0.symbols);
            assert(self@ =~~= m_create_symbol(old(self)@, span, *name, flags, excludes, scope).0);
            assert forall|i: int| 0 <= i < self@.scopes.len() implies scope_wf(
                #[trigger] self@.scopes[i],
                i,
                self@.symbols.len() as int,
            ) by {
                assert(scope_wf(old(self)@.scopes[i], i, old(self)@.symbols.len() as int));
            }
        }
        sym
    }

    /// Unions a repeated declaration's flags and mask into an existing
    /// symbol.
    pub fn merge_symbol(&mut self, sym: usize, flags: SymbolFlags, excludes: SymbolFlags)
        requires
            old(self).wf(),
            sym < old(self)@.symbols.len(),
        ensures
            final(self)@ == m_merge_symbol(old(self)@, sym, flags, excludes),
            final(self).wf(),
    {
        let f = self.symbols[sym].flags.union(flags);
        let e = self.symbols[sym].excludes.union(excludes);
        self.symbols[sym].flags = f;
        self.symbols[sym].excludes = e;
        proof {
            assert(self.symbols@ =~= old(self).symbols@.update(
                sym as int,
                self.symbols@[sym as int],
            ));
            lemma_view_seq_update(old(self).symbols@, sym as int, self.symbols@[sym as int]);
            assert(self@.symbols[sym as int] =~~= m_merge_symbol(
                old(self)@,
                sym,
                flags,
                excludes,
            ).symbols[sym as int]);
            assert(self@.symbols =~~= m_merge_symbol(old(self)@, sym, flags, excludes).symbols);
            assert(self@ =~~= m_merge_symbol(old(self)@, sym, flags, excludes));
        }
    }

    /// Rewrites a symbol's owning scope; used when hoisting relocates a
    /// binding to its boundary.
    pub fn set_symbol_scope(&mut self, sym: usize, scope: usize)
        requires
            old(self).wf(),
            sym < old(self)@.symbols.len(),
            scope < old(self)@.scopes.len(),
        ensures
            final(self)@ == m_set_symbol_scope(old(self)@, sym, scope),
            final(self).wf(),
    {
        self.symbols[sym].scope = Some(scope);
        proof {
            assert(self.symbols@ =~= old(self).symbols@.update(
                sym as int,
                self.symbols@[sym as int],
            ));
            lemma_view_seq_update(old(self).symbols@, sym as int, self.symbols@[sym as int]);
            assert(self@.symbols[sym as int] =~~= m_set_symbol_scope(
                old(self)@,
                sym,
                scope,
            ).symbols[sym as int]);
            assert(self@.symbols =~~= m_set_symbol_scope(old(self)@, sym, scope).symbols);
            assert(self@ =~~= m_set_symbol_scope(old(self)@, sym, scope));
        }
    }

    /// Maps `name` to `sym` in the scope's live binding table, overwriting
    /// any existing entry for the name.
    pub fn add_binding(&mut self, scope: usize, name: &String, sym: usize)
        requires
            old(self).wf(),
            scope < old(self)@.scopes.len(),
            sym < old(self)@.symbols.len(),
        ensures
            final(self)@ == m_add_binding(old(self)@, scope, *name, sym),
            final(self).wf(),
    {
        proof {
            lemma_find_name(self.scopes@[scope as int].bindings@, name@);
        }
        let idx = table_find(&self.scopes[scope].bindings, name);
        match idx {
            Some(i) => {
                self.scopes[scope].bindings[i] = Binding { name: name.clone(), symbol: sym };
            },
            None => {
                self.scopes[scope].bindings.push(Binding { name: name.clone(), symbol: sym });
            },
        }
        proof {
            assert(self.scopes@ =~= old(self).scopes@.update(
                scope as int,
                self.scopes@[scope as int],
            ));
            lemma_view_seq_update(old(self).scopes@, scope as int, self.scopes@[scope as int]);
            assert(self@.scopes[scope as int] =~~= m_add_binding(
                old(self)@,
                scope,
                *name,
                sym,
            ).scopes[scope as int]);
            assert(self@.scopes =~~= m_add_binding(old(self)@, scope, *name, sym).scopes);
            assert(self@ =~~= m_add_binding(old(self)@, scope, *name, sym));
            lemma_table_set_wf(
                old(self)@.scopes[scope as int].bindings,
                *name,
                sym,
                old(self)@.symbols.len() as int,
            );
        }
    }

    /// Removes the entry for `name` from the scope's live binding table, if
    /// one exists.
    pub fn remove_binding(&mut self, scope: usize, name: &String)
        requires
            old(self).wf(),
            scope < old(self)@.scopes.len(),
        ensures
            final(self)@ == m_remove_binding(old(self)@, scope, name@),
            final(self).wf(),
    {
        proof {
            lemma_find_name(self.scopes@[scope as int].bindings@, name@);
        }
        let idx = table_find(&self.scopes[scope].bindings, name);
        match idx {
            Some(i) => {
                self.scopes[scope].bindings.remove(i);
            },
            None => {},
        }
        proof {
            assert(self.scopes@ =~= old(self).scopes@.update(
                scope as int,
                self.scopes@[scope as int],
            ));
            lemma_view_seq_update(old(self).scopes@, scope as int, self.scopes@[scope as int]);
            assert(self@.scopes[scope as int] =~~= m_remove_binding(
                old(self)@,
                scope,
                name@,
            ).scopes[scope as int]);
            assert(self@.scopes =~~= m_remove_binding(old(self)@, scope, name@).scopes);
            assert(self@ =~~= m_remove_binding(old(self)@, scope, name@));
            lemma_table_remove_wf(
                old(self)@.scopes[scope as int].bindings,
                name@,
                old(self)@.symbols.len() as int,
            );
        }
    }

    /// Records `name` in the scope's hoisting ledger.
    pub fn record_ledger(&mut self, scope: usize, name: &String, sym: usize)
        requires
            old(self).wf(),
            scope < old(self)@.scopes.len(),
            sym < old(self)@.symbols.len(),
        ensures
            final(self)@ == m_record_ledger(old(self)@, scope, *name, sym),
            final(self).wf(),
    {
        proof {
            lemma_find_name(self.scopes@[scope as int].ledger@, name@);
        }
        let idx = table_find(&self.scopes[scope].ledger, name);
        match idx {
            Some(i) => {
                self.scopes[scope].ledger[i] = Binding { name: name.clone(), symbol: sym };
            },
            None => {
                self.scopes[scope].ledger.push(Binding { name: name.clone(), symbol: sym });
            },
        }
        proof {
            assert(self.scopes@ =~= old(self).scopes@.update(
                scope as int,
                self.scopes@[scope as int],
            ));
            lemma_view_seq_update(old(self).scopes@, scope as int, self.scopes@[scope as int]);
            assert(self@.scopes[scope as int] =~~= m_record_ledger(
                old(self)@,
                scope,
                *name,
                sym,
            ).scopes[scope as int]);
            assert(self@.scopes =~~= m_record_ledger(old(self)@, scope, *name, sym).scopes);
            assert(self@ =~~= m_record_ledger(old(self)@, scope, *name, sym));
            lemma_table_set_wf(
                old(self)@.scopes[scope as int].ledger,
                *name,
                sym,
                old(self)@.symbols.len() as int,
            );
        }
    }

    /// Records a duplicate-binding conflict; the pass continues.
    pub fn push_diagnostic(&mut self, span: Span, name: &String, existing: usize)
        requires
            old(self).wf(),
            existing < old(self)@.symbols.len(),
        ensures
            final(self)@ == m_push_diagnostic(old(self)@, span, *name, existing),
            final(self).wf(),
    {
        self.diagnostics.push(Diagnostic { span, name: name.clone(), existing });
        proof {
            assert(self@ =~~= m_push_diagnostic(old(self)@, span, *name, existing));
        }
    }

    /// Records the resolution of one binding identifier node.
    pub fn push_resolution(&mut self, node: usize, symbol: Option<usize>)
        requires
            old(self).wf(),
            match symbol {
                Some(s) => s < old(self)@.symbols.len(),
                None => true,
            },
        ensures
            final(self)@ == m_push_resolution(old(self)@, node, symbol),
            final(self).wf(),
    {
        self.resolutions.push(Resolution { node, symbol });
        proof {
            assert(self@ =~~= m_push_resolution(old(self)@, node, symbol));
        }
    }

    /// Marks a symbol as having a no-side-effects initializer.
    pub fn mark_no_side_effects(&mut self, sym: usize)
        requires
            old(self).wf(),
            sym < old(self)@.symbols.len(),
        ensures
            final(self)@ == m_mark_no_side_effects(old(self)@, sym),
            final(self).wf(),
    {
        self.symbols[sym].no_side_effects = true;
        proof {
            assert(self.symbols@ =~= old(self).symbols@.update(
                sym as int,
                self.symbols@[sym as int],
            ));
            lemma_view_seq_update(old(self).symbols@, sym as int, self.symbols@[sym as int]);
            assert(self@.symbols[sym as int] =~~= m_mark_no_side_effects(
                old(self)@,
                sym,
            ).symbols[sym as int]);
            assert(self@.symbols =~~= m_mark_no_side_effects(old(self)@, sym).symbols);
            assert(self@ =~~= m_mark_no_side_effects(old(self)@, sym));
        }
    }

    /// Appends a use site to a symbol's reference list; filled by a later
    /// resolution phase.
    pub fn add_reference(&mut self, sym: usize, node: usize)
        requires
            old(self).wf(),
            sym < old(self)@.symbols.len(),
        ensures
            final(self)@ == m_add_reference(old(self)@, sym, node),
            final(self).wf(),
    {
        self.symbols[sym].references.push(node);
        proof {
            assert(self.symbols@ =~= old(self).symbols@.update(
                sym as int,
                self.symbols@[sym as int],
            ));
            lemma_view_seq_update(old(self).symbols@, sym as int, self.symbols@[sym as int]);
            assert(self@.symbols[sym as int] =~~= m_add_reference(
                old(self)@,
                sym,
                node,
            ).symbols[sym as int]);
            assert(self@.symbols =~~= m_add_reference(old(self)@, sym, node).symbols);
            assert(self@ =~~= m_add_reference(old(self)@, sym, node));
        }
    }

    /// Reads the symbol the scope's live binding table maps `name` to.
    pub fn get_binding(&self, scope: usize, name: &String) -> (r: Option<usize>)
        requires
            self.wf(),
            scope < self@.scopes.len(),
        ensures
            r == table_get(self@.scopes[scope as int].bindings, name@),
    {
        table_get_exec(&self.scopes[scope].bindings, name)
    }

    /// Reads the symbol the scope's hoisting ledger maps `name` to.
    pub fn get_ledger(&self, scope: usize, name: &String) -> (r: Option<usize>)
        requires
            self.wf(),
            scope < self@.scopes.len(),
        ensures
            r == table_get(self@.scopes[scope as int].ledger, name@),
    {
        table_get_exec(&self.scopes[scope].ledger, name)
    }

    /// Reads a scope's parent.
    pub fn scope_parent(&self, scope: usize) -> (r: Option<usize>)
        requires
            self.wf(),
            scope < self@.scopes.len(),
        ensures
            r == self@.scopes[scope as int].parent,
    {
        self.scopes[scope].parent
    }

    /// Whether the program being bound is typescript source.
    pub fn is_typescript(&self) -> (r: bool)
        ensures
            r == self@.typescript,
    {
        self.typescript
    }

    /// Reads a scope's flags.
    pub fn scope_flags(&self, scope: usize) -> (r: ScopeFlags)
        requires
            self.wf(),
            scope < self@.scopes.len(),
        ensures
            r == self@.scopes[scope as int].flags,
    {
        self.scopes[scope].flags
    }
}


/// The conflict/exclusion engine's declaration of a name on one scope.
///
/// The name is looked up in the scope's own live binding table only. If it is
/// absent there, the scope's hoisting ledger is consulted, so that a lexical
/// declaration in a block a `var` was hoisted through is rejected. A conflict
/// is recorded, never fatal, and the declaration merges into the existing
/// symbol; a permitted duplicate either merges or, for parameters, creates a
/// fresh symbol that overwrites the live binding; a new name creates a fresh
/// symbol owned by the scope.
pub open spec fn m_declare_on_scope(
    bv: BinderV,
    scope: usize,
    span: Span,
    name: String,
    rule: BindingRule,
) -> (BinderV, usize) {
    let sc = bv.scopes[scope as int];
    match table_get(sc.bindings, name@) {
        Some(existing) => {
            if spec_conflicts(
                bv.symbols[existing as int].flags,
                bv.symbols[existing as int].excludes,
                rule.includes,
                rule.excludes,
            ) {
                (
                    m_merge_symbol(
                        m_push_diagnostic(bv, span, name, existing),
                        existing,
                        rule.includes,
                        rule.excludes,
                    ),
                    existing,
                )
            } else if rule.duplicates is Overwrite {
                let created = m_create_symbol(
                    bv,
                    span,
                    name,
                    rule.includes,
                    rule.excludes,
                    Some(scope),
                );
                (m_add_binding(created.0, scope, name, created.1), created.1)
            } else {
                (m_merge_symbol(bv, existing, rule.includes, rule.excludes), existing)
            }
        },
        None => match table_get(sc.ledger, name@) {
            Some(existing) => {
                if spec_conflicts(
                    bv.symbols[existing as int].flags,
                    bv.symbols[existing as int].excludes,
                    rule.includes,
                    rule.excludes,
                ) {
                    (
                        m_merge_symbol(
                            m_push_diagnostic(bv, span, name, existing),
                            existing,
                            rule.includes,
                            rule.excludes,
                        ),
                        existing,
                    )
                } else {
                    (m_merge_symbol(bv, existing, rule.includes, rule.excludes), existing)
                }
            },
            None => {
                let created = m_create_symbol(
                    bv,
                    span,
                    name,
                    rule.includes,
                    rule.excludes,
                    Some(scope),
                );
                (m_add_binding(created.0, scope, name, created.1), created.1)
            },
        },
    }
}

/// The shadow-declare path of a simple catch parameter: a fresh symbol bound
/// directly into the given scope, bypassing the redeclaration search.
pub open spec fn m_declare_shadow(
    bv: BinderV,
    scope: usize,
    span: Span,
    name: String,
    includes: SymbolFlags,
) -> (BinderV, usize) {
    let created = m_create_symbol(bv, span, name, includes, SymbolFlags::spec_none(), Some(scope));
    (m_add_binding(created.0, scope, name, created.1), created.1)
}

/// The hoisting boundary a function-scoped declaration at `s` is anchored
/// at: the nearest ancestor (or `s` itself) flagged as a boundary.
pub open spec fn m_hoist_target(bv: BinderV, s: usize) -> usize
    decreases s,
{
    if (s as int) < bv.scopes.len() && !bv.scopes[s as int].flags.spec_is_var_boundary() {
        match bv.scopes[s as int].parent {
            Some(p) => if p < s {
                m_hoist_target(bv, p)
            } else {
                s
            },
            None => s,
        }
    } else {
        s
    }
}

/// The scopes a function-scoped declaration at `s` hoists through: the walk
/// from `s` up to, but excluding, its hoisting boundary, innermost first.
pub open spec fn m_intermediates(bv: BinderV, s: usize) -> Seq<usize>
    decreases s,
{
    if (s as int) < bv.scopes.len() && !bv.scopes[s as int].flags.spec_is_var_boundary() {
        match bv.scopes[s as int].parent {
            Some(p) => if p < s {
                seq![s] + m_intermediates(bv, p)
            } else {
                seq![s]
            },
            None => seq![s],
        }
    } else {
        Seq::empty()
    }
}

/// In a well-formed state the hoisting walk is sound: the boundary exists, is
/// flagged as one, and every intermediate scope is a real, non-boundary
/// scope. The root scope always qualifies as a boundary, so a declaration
/// with no boundary above it is impossible.
pub proof fn lemma_hoist_walk(bv: BinderV, s: usize)
    requires
        bv.wf(),
        s < bv.scopes.len(),
    ensures
        m_hoist_target(bv, s) < bv.scopes.len(),
        bv.scopes[m_hoist_target(bv, s) as int].flags.spec_is_var_boundary(),
        forall|i: int|
            0 <= i < m_intermediates(bv, s).len() ==> (#[trigger] m_intermediates(bv, s)[i] as int)
                < bv.scopes.len(),
    decreases s,
{
    if !bv.scopes[s as int].flags.spec_is_var_boundary() {
        match bv.scopes[s as int].parent {
            Some(p) => {
                lemma_hoist_walk(bv, p);
                assert forall|i: int| 0 <= i < m_intermediates(bv, s).len() implies (
                #[trigger] m_intermediates(bv, s)[i] as int) < bv.scopes.len() by {
                    if i > 0 {
                        assert(m_intermediates(bv, s)[i] == m_intermediates(bv, p)[i - 1]);
                    }
                }
            },
            None => {
                assert(s == 0);
            },
        }
    }
}

/// Records `name` in the hoisting ledger of every listed scope.
pub open spec fn m_record_ledger_all(
    bv: BinderV,
    scopes: Seq<usize>,
    name: String,
    sym: usize,
) -> BinderV
    decreases scopes.len(),
{
    if scopes.len() == 0 {
        bv
    } else {
        m_record_ledger_all(
            m_record_ledger(bv, scopes[0], name, sym),
            scopes.drop_first(),
            name,
            sym,
        )
    }
}

/// The first hoisting-ledger entry for `name` along the listed scopes.
pub open spec fn m_first_ledger_hit(bv: BinderV, scopes: Seq<usize>, name: Seq<char>) -> Option<
    usize,
>
    decreases scopes.len(),
{
    if scopes.len() == 0 {
        None
    } else {
        match table_get(bv.scopes[scopes[0] as int].ledger, name) {
            Some(sym) => Some(sym),
            None => m_first_ledger_hit(bv, scopes.drop_first(), name),
        }
    }
}

/// The hoisting resolver's declaration of a function-scoped name at scope
/// `current`.
///
/// The walk to the hoisting boundary collects the intermediate scopes; a
/// prior declaration found in one of their ledgers is merged with (the
/// designed resolution of repeated `var`s, not a conflict unless the masks
/// say so), its live binding relocated to the boundary and its owning scope
/// rewritten; otherwise the name is declared on the boundary scope itself.
/// Either way the name is then recorded in every intermediate ledger, so a
/// later lexical declaration in one of those blocks is rejected.
pub open spec fn m_hoist_declare(
    bv: BinderV,
    current: usize,
    span: Span,
    name: String,
    rule: BindingRule,
) -> (BinderV, usize) {
    let target = m_hoist_target(bv, current);
    let inters = m_intermediates(bv, current);
    let declared = match m_first_ledger_hit(bv, inters, name@) {
        Some(existing) => {
            let bv1 = if spec_conflicts(
                bv.symbols[existing as int].flags,
                bv.symbols[existing as int].excludes,
                rule.includes,
                rule.excludes,
            ) {
                m_push_diagnostic(bv, span, name, existing)
            } else {
                bv
            };
            let bv2 = m_merge_symbol(bv1, existing, rule.includes, rule.excludes);
            let bv3 = match bv.symbols[existing as int].scope {
                Some(holder) => m_remove_binding(bv2, holder, name@),
                None => bv2,
            };
            let bv4 = m_add_binding(bv3, target, name, existing);
            (m_set_symbol_scope(bv4, existing, target), existing)
        },
        None => m_declare_on_scope(bv, target, span, name, rule),
    };
    (m_record_ledger_all(declared.0, inters, name, declared.1), declared.1)
}


/// A hit in a well-formed table names an in-range symbol.
pub proof fn lemma_table_get_range(t: Seq<Binding>, name: Seq<char>, n: int)
    requires
        table_wf(t, n),
    ensures
        match table_get(t, name) {
            Some(sym) => (sym as int) < n,
            None => true,
        },
{
    lemma_find_name(t, name);
}

/// A first ledger hit along in-range scopes of a well-formed state names an
/// in-range symbol.
pub proof fn lemma_first_ledger_hit_range(bv: BinderV, scopes: Seq<usize>, name: Seq<char>)
    requires
        bv.wf(),
        forall|i: int| 0 <= i < scopes.len() ==> (#[trigger] scopes[i] as int) < bv.scopes.len(),
    ensures
        match m_first_ledger_hit(bv, scopes, name) {
            Some(sym) => (sym as int) < bv.symbols.len(),
            None => true,
        },
    decreases scopes.len(),
{
    if scopes.len() > 0 {
        lemma_table_get_range(
            bv.scopes[scopes[0] as int].ledger,
            name,
            bv.symbols.len() as int,
        );
        assert forall|i: int| 0 <= i < scopes.drop_first().len() implies (
        #[trigger] scopes.drop_first()[i] as int) < bv.scopes.len() by {
            assert(scopes.drop_first()[i] == scopes[i + 1]);
        }
        lemma_first_ledger_hit_range(bv, scopes.drop_first(), name);
    }
}

impl Binder {
    /// Declares `name` on one scope through the conflict/exclusion engine;
    /// see [`m_declare_on_scope`]. Returns the symbol the declaration's
    /// identifier resolves to.
    #[verifier::rlimit(60)]
    pub fn declare_symbol_on_scope(
        &mut self,
        scope: usize,
        span: Span,
        name: &String,
        rule: BindingRule,
    ) -> (sym: usize)
        requires
            old(self).wf(),
            scope < old(self)@.scopes.len(),
        ensures
            final(self)@ == m_declare_on_scope(old(self)@, scope, span, *name, rule).0,
            sym == m_declare_on_scope(old(self)@, scope, span, *name, rule).1,
            sym < final(self)@.symbols.len(),
            final(self)@.scopes.len() == old(self)@.scopes.len(),
            final(self)@.symbols.len() >= old(self)@.symbols.len(),
            final(self).wf(),
    {
        proof {
            lemma_table_get_range(
                self@.scopes[scope as int].bindings,
                name@,
                self@.symbols.len() as int,
            );
            lemma_table_get_range(
                self@.scopes[scope as int].ledger,
                name@,
                self@.symbols.len() as int,
            );
        }
        let existing_opt = self.get_binding(scope, name);
        match existing_opt {
            Some(existing) => {
                let clash = conflicts(
                    self.symbols[existing].flags,
                    self.symbols[existing].excludes,
                    rule.includes,
                    rule.excludes,
                );
                if clash {
                    self.push_diagnostic(span, name, existing);
                    self.merge_symbol(existing, rule.includes, rule.excludes);
                    existing
                } else if matches!(rule.duplicates, DuplicatePolicy::Overwrite) {
                    let created = self.create_symbol(
                        span,
                        name,
                        rule.includes,
                        rule.excludes,
                        Some(scope),
                    );
                    self.add_binding(scope, name, created);
                    created
                } else {
                    self.merge_symbol(existing, rule.includes, rule.excludes);
                    existing
                }
            },
            None => {
                let hoisted_opt = self.get_ledger(scope, name);
                match hoisted_opt {
                    Some(existing) => {
                        let clash = conflicts(
                            self.symbols[existing].flags,
                            self.symbols[existing].excludes,
                            rule.includes,
                            rule.excludes,
                        );
                        if clash {
                            self.push_diagnostic(span, name, existing);
                        }
                        self.merge_symbol(existing, rule.includes, rule.excludes);
                        existing
                    },
                    None => {
                        let created = self.create_symbol(
                            span,
                            name,
                            rule.includes,
                            rule.excludes,
                            Some(scope),
                        );
                        self.add_binding(scope, name, created);
                        created
                    },
                }
            },
        }
    }

    /// Shadow-declares a simple catch parameter directly into `scope`,
    /// bypassing the redeclaration search; see [`m_declare_shadow`].
    pub fn declare_shadow_symbol(
        &mut self,
        scope: usize,
        span: Span,
        name: &String,
        includes: SymbolFlags,
    ) -> (sym: usize)
        requires
            old(self).wf(),
            scope < old(self)@.scopes.len(),
        ensures
            final(self)@ == m_declare_shadow(old(self)@, scope, span, *name, includes).0,
            sym == m_declare_shadow(old(self)@, scope, span, *name, includes).1,
            sym < final(self)@.symbols.len(),
            final(self)@.scopes.len() == old(self)@.scopes.len(),
            final(self)@.symbols.len() >= old(self)@.symbols.len(),
            final(self).wf(),
    {
        let created = self.create_symbol(span, name, includes, SymbolFlags::none(), Some(scope));
        self.add_binding(scope, name, created);
        created
    }

    /// The first hoisting-ledger entry for `name` along `inters`, from
    /// position `from` on.
    fn first_ledger_hit_from(&self, inters: &Vec<usize>, from: usize, name: &String) -> (r: Option<
        usize,
    >)
        requires
            self.wf(),
            from <= inters@.len(),
            forall|i: int| 0 <= i < inters@.len() ==> (#[trigger] inters@[i] as int)
                < self@.scopes.len(),
        ensures
            r == m_first_ledger_hit(self@, inters@.skip(from as int), name@),
        decreases inters@.len() - from,
    {
        if from == inters.len() {
            proof {
                assert(inters@.skip(from as int) =~= Seq::<usize>::empty());
            }
            None
        } else {
            proof {
                assert(inters@.skip(from as int)[0] == inters@[from as int]);
                assert(inters@.skip(from as int).drop_first() =~= inters@.skip(from as int + 1));
            }
            let g = self.get_ledger(inters[from], name);
            match g {
                Some(sym) => Some(sym),
                None => self.first_ledger_hit_from(inters, from + 1, name),
            }
        }
    }

    /// Declares a function-scoped name at `current` through the hoisting
    /// resolver; see [`m_hoist_declare`]. Returns the symbol the
    /// declaration's identifier resolves to.
    #[verifier::rlimit(60)]
    pub fn hoist_declare(
        &mut self,
        current: usize,
        span: Span,
        name: &String,
        rule: BindingRule,
    ) -> (sym: usize)
        requires
            old(self).wf(),
            current < old(self)@.scopes.len(),
        ensures
            final(self)@ == m_hoist_declare(old(self)@, current, span, *name, rule).0,
            sym == m_hoist_declare(old(self)@, current, span, *name, rule).1,
            sym < final(self)@.symbols.len(),
            final(self)@.scopes.len() == old(self)@.scopes.len(),
            final(self)@.symbols.len() >= old(self)@.symbols.len(),
            final(self).wf(),
    {
        proof {
            lemma_hoist_walk(self@, current);
        }
        let ghost bv0 = self@;
        let mut target = current;
        let mut inters: Vec<usize> = Vec::new();
        while !self.scope_flags(target).is_var_boundary()
            invariant
                *self == *old(self),
                self.wf(),
                target < self@.scopes.len(),
                m_hoist_target(self@, current) == m_hoist_target(self@, target),
                m_intermediates(self@, current) == inters@ + m_intermediates(self@, target),
                forall|i: int| 0 <= i < inters@.len() ==> (#[trigger] inters@[i] as int)
                    < self@.scopes.len(),
            decreases target,
        {
            inters.push(target);
            let parent_opt = self.scopes[target].parent;
            match parent_opt {
                Some(p) => {
                    proof {
                        assert(scope_wf(self@.scopes[target as int], target as int, self@.symbols.len() as int));
                        assert(inters@ + m_intermediates(self@, p) =~= inters@.drop_last() + (seq![target] + m_intermediates(self@, p)));
                    }
                    target = p;
                },
                None => {
                    proof {
                        assert(scope_wf(self@.scopes[target as int], target as int, self@.symbols.len() as int));
                        assert(target == 0);
                        assert(false);
                    }
                },
            }
        }
        proof {
            assert(m_intermediates(self@, target) =~= Seq::<usize>::empty());
            assert(inters@ + Seq::<usize>::empty() =~= inters@);
            assert(inters@ == m_intermediates(bv0, current));
            assert(target == m_hoist_target(bv0, current));
            assert(inters@.skip(0) =~= inters@);
            lemma_first_ledger_hit_range(self@, inters@, name@);
        }
        let hit = self.first_ledger_hit_from(&inters, 0, name);
        let declared = match hit {
            Some(existing) => {
                let clash = conflicts(
                    self.symbols[existing].flags,
                    self.symbols[existing].excludes,
                    rule.includes,
                    rule.excludes,
                );
                let holder_opt = self.symbols[existing].scope;
                if clash {
                    self.push_diagnostic(span, name, existing);
                }
                self.merge_symbol(existing, rule.includes, rule.excludes);
                match holder_opt {
                    Some(holder) => {
                        self.remove_binding(holder, name);
                    },
                    None => {},
                }
                self.add_binding(target, name, existing);
                self.set_symbol_scope(existing, target);
                existing
            },
            None => self.declare_symbol_on_scope(target, span, name, rule),
        };
        proof {
            assert(self@ == match m_first_ledger_hit(bv0, inters@, name@) {
                Some(existing) => {
                    let bv1 = if spec_conflicts(
                        bv0.symbols[existing as int].flags,
                        bv0.symbols[existing as int].excludes,
                        rule.includes,
                        rule.excludes,
                    ) {
                        m_push_diagnostic(bv0, span, *name, existing)
                    } else {
                        bv0
                    };
                    let bv2 = m_merge_symbol(bv1, existing, rule.includes, rule.excludes);
                    let bv3 = match bv0.symbols[existing as int].scope {
                        Some(holder) => m_remove_binding(bv2, holder, name@),
                        None => bv2,
                    };
                    m_set_symbol_scope(
                        m_add_binding(bv3, target, *name, existing),
                        existing,
                        target,
                    )
                },
                None => m_declare_on_scope(bv0, target, span, *name, rule).0,
            });
        }
        proof {
            assert(self@.scopes.len() == bv0.scopes.len());
            assert(self@.symbols.len() >= bv0.symbols.len());
        }
        let ghost mid = self@;
        let mut j: usize = 0;
        while j < inters.len()
            invariant
                j <= inters@.len(),
                self.wf(),
                (declared as int) < self@.symbols.len(),
                self@.symbols.len() == mid.symbols.len(),
                self@.scopes.len() == mid.scopes.len(),
                forall|i: int| 0 <= i < inters@.len() ==> (#[trigger] inters@[i] as int)
                    < self@.scopes.len(),
                m_record_ledger_all(self@, inters@.skip(j as int), *name, declared)
                    == m_record_ledger_all(mid, inters@, *name, declared),
            decreases inters@.len() - j,
        {
            proof {
                assert(inters@.skip(j as int)[0] == inters@[j as int]);
                assert(inters@.skip(j as int).drop_first() =~= inters@.skip(j as int + 1));
            }
            self.record_ledger(inters[j], name, declared);
            j = j + 1;
        }
        proof {
            assert(inters@.skip(inters@.len() as int) =~= Seq::<usize>::empty());
            assert(self@ == m_record_ledger_all(mid, inters@, *name, declared));
        }
        declared
    }
}


/// The first resolution recorded for a node identity.
pub open spec fn m_resolution_of(rs: Seq<Resolution>, node: usize) -> Option<Resolution>
    decreases rs.len(),
{
    if rs.len() == 0 {
        None
    } else if rs[0].node == node {
        Some(rs[0])
    } else {
        m_resolution_of(rs.drop_first(), node)
    }
}

impl Binder {
    /// A symbol's declared name.
    pub fn symbol_name(&self, sym: usize) -> (r: &String)
        requires
            sym < self@.symbols.len(),
        ensures
            r == self@.symbols[sym as int].name,
    {
        &self.symbols[sym].name
    }

    /// A symbol's declaration span.
    pub fn symbol_span(&self, sym: usize) -> (r: Span)
        requires
            sym < self@.symbols.len(),
        ensures
            r == self@.symbols[sym as int].span,
    {
        self.symbols[sym].span
    }

    /// A symbol's flag set.
    pub fn symbol_flags(&self, sym: usize) -> (r: SymbolFlags)
        requires
            sym < self@.symbols.len(),
        ensures
            r == self@.symbols[sym as int].flags,
    {
        self.symbols[sym].flags
    }

    /// A symbol's exclusion mask.
    pub fn symbol_excludes(&self, sym: usize) -> (r: SymbolFlags)
        requires
            sym < self@.symbols.len(),
        ensures
            r == self@.symbols[sym as int].excludes,
    {
        self.symbols[sym].excludes
    }

    /// A symbol's owning scope; absent for deliberately unattached symbols.
    pub fn symbol_scope(&self, sym: usize) -> (r: Option<usize>)
        requires
            sym < self@.symbols.len(),
        ensures
            r == self@.symbols[sym as int].scope,
    {
        self.symbols[sym].scope
    }

    /// Whether a symbol's initializer carries a no-side-effects pragma.
    pub fn symbol_no_side_effects(&self, sym: usize) -> (r: bool)
        requires
            sym < self@.symbols.len(),
        ensures
            r == self@.symbols[sym as int].no_side_effects,
    {
        self.symbols[sym].no_side_effects
    }

    /// A symbol's recorded use sites.
    pub fn symbol_references(&self, sym: usize) -> (r: &Vec<usize>)
        requires
            sym < self@.symbols.len(),
        ensures
            r@ == self@.symbols[sym as int].references,
    {
        &self.symbols[sym].references
    }

    /// The number of recorded resolutions.
    pub fn resolution_count(&self) -> (n: usize)
        ensures
            n == self@.resolutions.len(),
    {
        self.resolutions.len()
    }

    /// One entry of the resolution side table, in visit order.
    pub fn resolution_at(&self, i: usize) -> (r: Resolution)
        requires
            i < self@.resolutions.len(),
        ensures
            r == self@.resolutions[i as int],
    {
        self.resolutions[i]
    }

    /// The resolution recorded for a binding identifier node: the symbol it
    /// resolved to, `Some(None)` for a deliberately unresolved identifier,
    /// and `None` for a node the pass never visited.
    pub fn resolution_of(&self, node: usize) -> (r: Option<Resolution>)
        ensures
            r == m_resolution_of(self@.resolutions, node),
    {
        let ghost g = self.resolutions@;
        proof {
            assert(self@.resolutions.skip(0) =~= self@.resolutions);
        }
        let mut i: usize = 0;
        while i < self.resolutions.len()
            invariant
                i <= self.resolutions@.len(),
                self.resolutions@ == g,
                m_resolution_of(self@.resolutions, node) == m_resolution_of(
                    self@.resolutions.skip(i as int),
                    node,
                ),
            decreases self.resolutions@.len() - i,
        {
            proof {
                assert(self@.resolutions.skip(i as int)[0] == self@.resolutions[i as int]);
                assert(self@.resolutions.skip(i as int).drop_first() =~= self@.resolutions.skip(
                    i as int + 1,
                ));
            }
            if self.resolutions[i].node == node {
                return Some(self.resolutions[i]);
            }
            i = i + 1;
        }
        proof {
            assert(self@.resolutions.skip(self@.resolutions.len() as int) =~= Seq::<
                Resolution,
            >::empty());
        }
        None
    }

    /// One recorded duplicate-binding conflict, in discovery order.
    pub fn diagnostic_at(&self, i: usize) -> (r: &Diagnostic)
        requires
            i < self@.diagnostics.len(),
        ensures
            r == self@.diagnostics[i as int],
    {
        &self.diagnostics[i]
    }
}


/// The walk from a scope to the root, inclusive of the starting scope,
/// innermost first.
pub open spec fn m_scope_ancestors(bv: BinderV, s: usize) -> Seq<usize>
    decreases s,
{
    if (s as int) < bv.scopes.len() {
        match bv.scopes[s as int].parent {
            Some(p) => if p < s {
                seq![s] + m_scope_ancestors(bv, p)
            } else {
                seq![s]
            },
            None => seq![s],
        }
    } else {
        seq![s]
    }
}

impl Binder {
    /// The finite, restartable walk from `scope` to the root, inclusive and
    /// innermost first.
    pub fn scope_ancestors(&self, scope: usize) -> (r: Vec<usize>)
        requires
            self.wf(),
            scope < self@.scopes.len(),
        ensures
            r@ == m_scope_ancestors(self@, scope),
    {
        let mut out: Vec<usize> = Vec::new();
        let mut cur: usize = scope;
        proof {
            assert(out@ + m_scope_ancestors(self@, cur) =~= m_scope_ancestors(self@, scope));
        }
        while self.scope_parent(cur).is_some()
            invariant
                self.wf(),
                cur < self@.scopes.len(),
                out@ + m_scope_ancestors(self@, cur) == m_scope_ancestors(self@, scope),
            decreases cur,
        {
            out.push(cur);
            let p = match self.scope_parent(cur) {
                Some(p) => p,
                None => 0,
            };
            proof {
                assert(scope_wf(self@.scopes[cur as int], cur as int, self@.symbols.len() as int));
                assert(m_scope_ancestors(self@, cur) =~= seq![cur] + m_scope_ancestors(self@, p));
                assert(out@ + m_scope_ancestors(self@, p) =~= m_scope_ancestors(self@, scope));
            }
            cur = p;
        }
        proof {
            assert(scope_wf(self@.scopes[cur as int], cur as int, self@.symbols.len() as int));
            assert(m_scope_ancestors(self@, cur) =~= seq![cur]);
        }
        out.push(cur);
        proof {
            assert(out@ =~= m_scope_ancestors(self@, scope));
        }
        out
    }

    /// The number of live bindings in a scope's table.
    pub fn binding_count(&self, scope: usize) -> (n: usize)
        requires
            scope < self@.scopes.len(),
        ensures
            n == self@.scopes[scope as int].bindings.len(),
    {
        self.scopes[scope].bindings.len()
    }

    /// One entry of a scope's live binding table.
    pub fn binding_at(&self, scope: usize, i: usize) -> (r: &Binding)
        requires
            scope < self@.scopes.len(),
            i < self@.scopes[scope as int].bindings.len(),
        ensures
            r == self@.scopes[scope as int].bindings[i as int],
    {
        &self.scopes[scope].bindings[i]
    }
}

} // verus!

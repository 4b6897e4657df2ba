//! The data the pass builds: the scope tree, the symbol table, the recorded
//! conflicts and the identifier-resolution side table, together with their
//! mathematical views and the well-formedness predicate every operation
//! preserves.

use vstd::prelude::*;

use crate::ast::Span;
use crate::flags::{ScopeFlags, SymbolFlags};

verus! {

/// One entry of a scope's binding table or hoisting ledger: a declared name
/// mapped to a symbol identity.
#[derive(Clone, Debug)]
pub struct Binding {
    pub name: String,
    pub symbol: usize,
}

/// One scope of the scope tree.
#[derive(Clone, Debug)]
pub struct Scope {
    /// The parent scope; absent only for the root.
    pub parent: Option<usize>,
    pub flags: ScopeFlags,
    /// The live binding table: at most one symbol per name.
    pub bindings: Vec<Binding>,
    /// The hoisting ledger: the names function-scoped declarations have
    /// hoisted through this scope, kept apart from the live table so a later
    /// lexical declaration of the same name in this scope is rejected.
    pub ledger: Vec<Binding>,
}

/// The view of a scope: the same data with mathematical sequences.
#[verifier::ext_equal]
pub struct ScopeV {
    pub parent: Option<usize>,
    pub flags: ScopeFlags,
    pub bindings: Seq<Binding>,
    pub ledger: Seq<Binding>,
}

impl View for Scope {
    type V = ScopeV;

    open spec fn view(&self) -> ScopeV {
        ScopeV { parent: self.parent, flags: self.flags, bindings: self.bindings@, ledger: self.ledger@ }
    }
}

/// One symbol record.
#[derive(Clone, Debug)]
pub struct Symbol {
    pub name: String,
    /// The span of the declaration that created the symbol.
    pub span: Span,
    /// The union of the flags of every declaration merged into this symbol.
    pub flags: SymbolFlags,
    /// The union of the exclusion masks of those declarations.
    pub excludes: SymbolFlags,
    /// The owning scope; absent for symbols deliberately left unattached to
    /// any scope's binding table.
    pub scope: Option<usize>,
    /// Use sites, filled by a later resolution phase.
    pub references: Vec<usize>,
    /// Whether the symbol's initializer carries a no-side-effects pragma.
    pub no_side_effects: bool,
}

/// The view of a symbol.
#[verifier::ext_equal]
pub struct SymbolV {
    pub name: String,
    pub span: Span,
    pub flags: SymbolFlags,
    pub excludes: SymbolFlags,
    pub scope: Option<usize>,
    pub references: Seq<usize>,
    pub no_side_effects: bool,
}

impl View for Symbol {
    type V = SymbolV;

    open spec fn view(&self) -> SymbolV {
        SymbolV {
            name: self.name,
            span: self.span,
            flags: self.flags,
            excludes: self.excludes,
            scope: self.scope,
            references: self.references@,
            no_side_effects: self.no_side_effects,
        }
    }
}

/// A recorded duplicate-binding conflict: the offending declaration's span
/// and name, and the symbol it clashed with. Conflicts are collected, not
/// fatal; the pass binds the rest of the tree.
#[derive(Clone, Debug)]
pub struct Diagnostic {
    pub span: Span,
    pub name: String,
    pub existing: usize,
}

/// One entry of the resolution side table: the identity of a binding
/// identifier node, and the symbol it resolved to. `None` marks the
/// deliberately unresolved cases (signature-only parameter lists, the name of
/// a `global` declaration block).
#[derive(Clone, Copy, Debug, PartialEq, Eq)]
pub struct Resolution {
    pub node: usize,
    pub symbol: Option<usize>,
}

/// The sequence of views of a sequence of values.
pub open spec fn view_seq<T: View>(s: Seq<T>) -> Seq<T::V> {
    Seq::new(s.len(), |i: int| s[i]@)
}

/// Views commute with push.
pub proof fn lemma_view_seq_push<T: View>(s: Seq<T>, x: T)
    ensures
        view_seq(s.push(x)) == view_seq(s).push(x@),
{
    assert(view_seq(s.push(x)) =~= view_seq(s).push(x@));
}

/// Views commute with point update.
pub proof fn lemma_view_seq_update<T: View>(s: Seq<T>, i: int, x: T)
    requires
        0 <= i < s.len(),
    ensures
        view_seq(s.update(i, x)) == view_seq(s).update(i, x@),
{
    assert(view_seq(s.update(i, x)) =~= view_seq(s).update(i, x@));
}

/// The view of the whole binder state.
#[verifier::ext_equal]
pub struct BinderV {
    pub scopes: Seq<ScopeV>,
    pub symbols: Seq<SymbolV>,
    pub diagnostics: Seq<Diagnostic>,
    pub resolutions: Seq<Resolution>,
    pub typescript: bool,
}

/// A binding table or ledger is well formed when its names are distinct and
/// its symbol identities are in range.
pub open spec fn table_wf(bindings: Seq<Binding>, n_symbols: int) -> bool {
    &&& forall|i: int, j: int|
        0 <= i < j < bindings.len() ==> bindings[i].name@ != bindings[j].name@
    &&& forall|i: int| 0 <= i < bindings.len() ==> #[trigger] bindings[i].symbol < n_symbols
}

/// A scope is well formed at position `idx` of the tree: its tables are well
/// formed and its parent comes strictly before it, so that every ancestor
/// walk ends at the root.
pub open spec fn scope_wf(s: ScopeV, idx: int, n_symbols: int) -> bool {
    &&& table_wf(s.bindings, n_symbols)
    &&& table_wf(s.ledger, n_symbols)
    &&& match s.parent {
        Some(p) => idx > 0 && p < idx,
        None => idx == 0,
    }
}

impl BinderV {
    /// Well-formedness of the whole state: the root scope exists and is a
    /// hoisting boundary, parents precede their children, every table maps
    /// distinct names to in-range symbols, and every recorded symbol identity
    /// is in range.
    pub open spec fn wf(self) -> bool {
        &&& self.scopes.len() >= 1
        &&& self.scopes[0].flags.top
        &&& forall|i: int|
            0 <= i < self.scopes.len() ==> scope_wf(
                #[trigger] self.scopes[i],
                i,
                self.symbols.len() as int,
            )
        &&& forall|i: int|
            0 <= i < self.symbols.len() ==> match (#[trigger] self.symbols[i]).scope {
                Some(k) => k < self.scopes.len(),
                None => true,
            }
        &&& forall|i: int|
            0 <= i < self.resolutions.len() ==> match (#[trigger] self.resolutions[i]).symbol {
                Some(s) => s < self.symbols.len(),
                None => true,
            }
        &&& forall|i: int|
            0 <= i < self.diagnostics.len() ==> (#[trigger] self.diagnostics[i]).existing
                < self.symbols.len()
    }
}

} // verus!

//! The pass: a depth-first, document-order walk of the input tree that
//! classifies each declaration, runs it through the conflict/exclusion engine
//! or the hoisting resolver, and records the resolution of every binding
//! identifier.
//!
//! Every step has a pure model (`m_*`) over the state view; the executable
//! walk computes exactly the model's result, so the produced graph is a
//! deterministic function of the tree.

use vstd::prelude::*;

use crate::ast::{
    AccessorKind, CatchNode, ClassNode, Declarator, EnumMemberNode, EnumNode, FunctionNode, Ident,
    ImportNode, Item, NamespaceNode, ParamList, ParamListKind, Pattern, Program, TypeParamNode,
    VarKind,
};
use crate::binder::{
    m_create_scope, m_create_symbol, m_declare_on_scope, m_declare_shadow, m_hoist_declare,
    m_mark_accessor, m_mark_no_side_effects, m_new, m_push_resolution, Binder,
};
use crate::classify::{spec_classify, classify, BindingRule, DeclKind};
use crate::flags::ScopeFlags;
use crate::state::BinderV;

verus! {

/// The declaration kind of a variable declarator.
pub open spec fn declarator_kind(k: VarKind) -> DeclKind {
    match k {
        VarKind::Var => DeclKind::HoistedVar,
        VarKind::Let => DeclKind::Lexical { constant: false },
        VarKind::Const => DeclKind::Lexical { constant: true },
        VarKind::Using => DeclKind::Lexical { constant: true },
        VarKind::AwaitUsing => DeclKind::Lexical { constant: true },
    }
}

/// One bound name declared and its identifier's resolution recorded; `hoist`
/// routes `var`-style names through the hoisting resolver.
pub open spec fn m_bind_one(
    bv: BinderV,
    scope: usize,
    id: Ident,
    rule: BindingRule,
    hoist: bool,
) -> BinderV {
    let declared = if hoist {
        m_hoist_declare(bv, scope, id.span, id.name, rule)
    } else {
        m_declare_on_scope(bv, scope, id.span, id.name, rule)
    };
    m_push_resolution(declared.0, id.node, Some(declared.1))
}

/// A list of bound names declared left to right.
pub open spec fn m_bind_idents(
    bv: BinderV,
    scope: usize,
    ids: Seq<Ident>,
    rule: BindingRule,
    hoist: bool,
) -> BinderV
    decreases ids.len(),
{
    if ids.len() == 0 {
        bv
    } else {
        m_bind_idents(m_bind_one(bv, scope, ids[0], rule, hoist), scope, ids.drop_first(), rule, hoist)
    }
}

/// A list of patterns bound left to right.
pub open spec fn m_bind_patterns(
    bv: BinderV,
    scope: usize,
    pats: Seq<Pattern>,
    rule: BindingRule,
) -> BinderV
    decreases pats.len(),
{
    if pats.len() == 0 {
        bv
    } else {
        m_bind_patterns(
            m_bind_idents(bv, scope, pats[0].spec_bound_names(), rule, false),
            scope,
            pats.drop_first(),
            rule,
        )
    }
}

/// The names of a signature-only parameter list recorded as deliberately
/// unresolved.
pub open spec fn m_skip_idents(bv: BinderV, ids: Seq<Ident>) -> BinderV
    decreases ids.len(),
{
    if ids.len() == 0 {
        bv
    } else {
        m_skip_idents(m_push_resolution(bv, ids[0].node, None), ids.drop_first())
    }
}

/// Signature-only patterns recorded as deliberately unresolved.
pub open spec fn m_skip_patterns(bv: BinderV, pats: Seq<Pattern>) -> BinderV
    decreases pats.len(),
{
    if pats.len() == 0 {
        bv
    } else {
        m_skip_patterns(m_skip_idents(bv, pats[0].spec_bound_names()), pats.drop_first())
    }
}

/// Binding a single-name list is binding that name.
pub proof fn lemma_bind_idents_one(
    bv: BinderV,
    scope: usize,
    id: Ident,
    rule: BindingRule,
    hoist: bool,
)
    ensures
        m_bind_idents(bv, scope, seq![id], rule, hoist) == m_bind_one(bv, scope, id, rule, hoist),
{
    let one = m_bind_one(bv, scope, id, rule, hoist);
    assert(seq![id].drop_first() =~= Seq::<Ident>::empty());
    assert(seq![id][0] == id);
    assert(m_bind_idents(one, scope, Seq::<Ident>::empty(), rule, hoist) == one);
}

/// Skipping a single-name list records that one name as unresolved.
pub proof fn lemma_skip_idents_one(bv: BinderV, id: Ident)
    ensures
        m_skip_idents(bv, seq![id]) == m_push_resolution(bv, id.node, None),
{
    let one = m_push_resolution(bv, id.node, None);
    assert(seq![id].drop_first() =~= Seq::<Ident>::empty());
    assert(seq![id][0] == id);
    assert(m_skip_idents(one, Seq::<Ident>::empty()) == one);
}

/// One variable declarator bound: `var` through the hoisting resolver,
/// lexical kinds on the current scope; a plain-identifier declarator with a
/// no-side-effects initializer marks its symbol.
pub open spec fn m_bind_declarator(bv: BinderV, scope: usize, d: Declarator) -> BinderV {
    let rule = spec_classify(declarator_kind(d.kind));
    let hoist = d.kind is Var;
    match d.pattern {
        Pattern::Id(id) => {
            let declared = if hoist {
                m_hoist_declare(bv, scope, id.span, id.name, rule)
            } else {
                m_declare_on_scope(bv, scope, id.span, id.name, rule)
            };
            let bound = m_push_resolution(declared.0, id.node, Some(declared.1));
            if d.init_pure {
                m_mark_no_side_effects(bound, declared.1)
            } else {
                bound
            }
        },
        Pattern::Destructuring(ids) => m_bind_idents(bv, scope, ids@, rule, hoist),
    }
}

/// A parameter list bound in the function's scope. Signature-only lists bind
/// nothing; otherwise duplicate names are forbidden for arrow/unique lists,
/// in strict code, and for non-simple lists, and the rest element always
/// forbids duplicates.
pub open spec fn m_bind_params(bv: BinderV, fscope: usize, p: ParamList) -> BinderV {
    if p.kind is Signature {
        let skipped = m_skip_patterns(bv, p.params@);
        match p.rest {
            Some(pat) => m_skip_idents(skipped, pat.spec_bound_names()),
            None => skipped,
        }
    } else {
        let rule = spec_classify(
            DeclKind::Parameter {
                arrow_or_unique: p.kind is Arrow || p.kind is Unique,
                strict: bv.scopes[fscope as int].flags.strict_mode,
                simple: p.simple,
            },
        );
        let bound = m_bind_patterns(bv, fscope, p.params@, rule);
        match p.rest {
            Some(pat) => m_bind_idents(
                bound,
                fscope,
                pat.spec_bound_names(),
                spec_classify(DeclKind::RestParameter),
                false,
            ),
            None => bound,
        }
    }
}

impl Binder {
    /// Declares one bound name and records its resolution; see
    /// [`m_bind_one`].
    pub fn bind_one(&mut self, scope: usize, id: &Ident, rule: BindingRule, hoist: bool)
        requires
            old(self).wf(),
            scope < old(self)@.scopes.len(),
        ensures
            final(self)@ == m_bind_one(old(self)@, scope, *id, rule, hoist),
            final(self)@.scopes.len() == old(self)@.scopes.len(),
            final(self).wf(),
    {
        let sym = if hoist {
            self.hoist_declare(scope, id.span, &id.name, rule)
        } else {
            self.declare_symbol_on_scope(scope, id.span, &id.name, rule)
        };
        self.push_resolution(id.node, Some(sym));
    }

    /// Declares a list of bound names left to right; see [`m_bind_idents`].
    fn bind_idents(&mut self, scope: usize, ids: &Vec<Ident>, rule: BindingRule, hoist: bool)
        requires
            old(self).wf(),
            scope < old(self)@.scopes.len(),
        ensures
            final(self)@ == m_bind_idents(old(self)@, scope, ids@, rule, hoist),
            final(self)@.scopes.len() == old(self)@.scopes.len(),
            final(self).wf(),
    {
        let ghost bv0 = self@;
        proof {
            assert(ids@.skip(0) =~= ids@);
        }
        let mut i: usize = 0;
        while i < ids.len()
            invariant
                i <= ids@.len(),
                self.wf(),
                scope < self@.scopes.len(),
                self@.scopes.len() == bv0.scopes.len(),
                m_bind_idents(self@, scope, ids@.skip(i as int), rule, hoist) == m_bind_idents(
                    bv0,
                    scope,
                    ids@,
                    rule,
                    hoist,
                ),
            decreases ids@.len() - i,
        {
            proof {
                assert(ids@.skip(i as int)[0] == ids@[i as int]);
                assert(ids@.skip(i as int).drop_first() =~= ids@.skip(i as int + 1));
            }
            self.bind_one(scope, &ids[i], rule, hoist);
            i = i + 1;
        }
        proof {
            assert(ids@.skip(ids@.len() as int) =~= Seq::<Ident>::empty());
        }
    }

    /// Declares a list of patterns left to right; see [`m_bind_patterns`].
    fn bind_patterns(&mut self, scope: usize, pats: &Vec<Pattern>, rule: BindingRule)
        requires
            old(self).wf(),
            scope < old(self)@.scopes.len(),
        ensures
            final(self)@ == m_bind_patterns(old(self)@, scope, pats@, rule),
            final(self)@.scopes.len() == old(self)@.scopes.len(),
            final(self).wf(),
    {
        let ghost bv0 = self@;
        proof {
            assert(pats@.skip(0) =~= pats@);
        }
        let mut i: usize = 0;
        while i < pats.len()
            invariant
                i <= pats@.len(),
                self.wf(),
                scope < self@.scopes.len(),
                self@.scopes.len() == bv0.scopes.len(),
                m_bind_patterns(self@, scope, pats@.skip(i as int), rule) == m_bind_patterns(
                    bv0,
                    scope,
                    pats@,
                    rule,
                ),
            decreases pats@.len() - i,
        {
            proof {
                assert(pats@.skip(i as int)[0] == pats@[i as int]);
                assert(pats@.skip(i as int).drop_first() =~= pats@.skip(i as int + 1));
            }
            match &pats[i] {
                Pattern::Id(id) => {
                    proof {
                        assert(pats@[i as int].spec_bound_names() =~= seq![*id]);
                        lemma_bind_idents_one(self@, scope, *id, rule, false);
                    }
                    self.bind_one(scope, id, rule, false);
                },
                Pattern::Destructuring(ids) => {
                    proof {
                        assert(pats@[i as int].spec_bound_names() =~= ids@);
                    }
                    self.bind_idents(scope, ids, rule, false);
                },
            }
            i = i + 1;
        }
        proof {
            assert(pats@.skip(pats@.len() as int) =~= Seq::<Pattern>::empty());
        }
    }

    /// Records a list of signature-only names as deliberately unresolved;
    /// see [`m_skip_idents`].
    fn skip_idents(&mut self, ids: &Vec<Ident>)
        requires
            old(self).wf(),
        ensures
            final(self)@ == m_skip_idents(old(self)@, ids@),
            final(self)@.scopes.len() == old(self)@.scopes.len(),
            final(self).wf(),
    {
        let ghost bv0 = self@;
        proof {
            assert(ids@.skip(0) =~= ids@);
        }
        let mut i: usize = 0;
        while i < ids.len()
            invariant
                i <= ids@.len(),
                self.wf(),
                self@.scopes.len() == bv0.scopes.len(),
                m_skip_idents(self@, ids@.skip(i as int)) == m_skip_idents(bv0, ids@),
            decreases ids@.len() - i,
        {
            proof {
                assert(ids@.skip(i as int)[0] == ids@[i as int]);
                assert(ids@.skip(i as int).drop_first() =~= ids@.skip(i as int + 1));
            }
            self.push_resolution(ids[i].node, None);
            i = i + 1;
        }
        proof {
            assert(ids@.skip(ids@.len() as int) =~= Seq::<Ident>::empty());
        }
    }

    /// Records signature-only patterns as deliberately unresolved; see
    /// [`m_skip_patterns`].
    fn skip_patterns(&mut self, pats: &Vec<Pattern>)
        requires
            old(self).wf(),
        ensures
            final(self)@ == m_skip_patterns(old(self)@, pats@),
            final(self)@.scopes.len() == old(self)@.scopes.len(),
            final(self).wf(),
    {
        let ghost bv0 = self@;
        proof {
            assert(pats@.skip(0) =~= pats@);
        }
        let mut i: usize = 0;
        while i < pats.len()
            invariant
                i <= pats@.len(),
                self.wf(),
                self@.scopes.len() == bv0.scopes.len(),
                m_skip_patterns(self@, pats@.skip(i as int)) == m_skip_patterns(bv0, pats@),
            decreases pats@.len() - i,
        {
            proof {
                assert(pats@.skip(i as int)[0] == pats@[i as int]);
                assert(pats@.skip(i as int).drop_first() =~= pats@.skip(i as int + 1));
            }
            match &pats[i] {
                Pattern::Id(id) => {
                    proof {
                        assert(pats@[i as int].spec_bound_names() =~= seq![*id]);
                        lemma_skip_idents_one(self@, *id);
                    }
                    self.push_resolution(id.node, None);
                },
                Pattern::Destructuring(ids) => {
                    proof {
                        assert(pats@[i as int].spec_bound_names() =~= ids@);
                    }
                    self.skip_idents(ids);
                },
            }
            i = i + 1;
        }
        proof {
            assert(pats@.skip(pats@.len() as int) =~= Seq::<Pattern>::empty());
        }
    }

    /// Binds one variable declarator; see [`m_bind_declarator`].
    pub fn bind_declarator(&mut self, scope: usize, d: &Declarator)
        requires
            old(self).wf(),
            scope < old(self)@.scopes.len(),
        ensures
            final(self)@ == m_bind_declarator(old(self)@, scope, *d),
            final(self)@.scopes.len() == old(self)@.scopes.len(),
            final(self).wf(),
    {
        let rule = classify(
            match d.kind {
                VarKind::Var => DeclKind::HoistedVar,
                VarKind::Let => DeclKind::Lexical { constant: false },
                VarKind::Const => DeclKind::Lexical { constant: true },
                VarKind::Using => DeclKind::Lexical { constant: true },
                VarKind::AwaitUsing => DeclKind::Lexical { constant: true },
            },
        );
        let hoist = matches!(d.kind, VarKind::Var);
        match &d.pattern {
            Pattern::Id(id) => {
                let sym = if hoist {
                    self.hoist_declare(scope, id.span, &id.name, rule)
                } else {
                    self.declare_symbol_on_scope(scope, id.span, &id.name, rule)
                };
                self.push_resolution(id.node, Some(sym));
                if d.init_pure {
                    self.mark_no_side_effects(sym);
                }
            },
            Pattern::Destructuring(ids) => {
                self.bind_idents(scope, ids, rule, hoist);
            },
        }
    }

    /// Binds a parameter list in the function's scope; see
    /// [`m_bind_params`].
    pub fn bind_params(&mut self, fscope: usize, p: &ParamList)
        requires
            old(self).wf(),
            fscope < old(self)@.scopes.len(),
        ensures
            final(self)@ == m_bind_params(old(self)@, fscope, *p),
            final(self)@.scopes.len() == old(self)@.scopes.len(),
            final(self).wf(),
    {
        if matches!(p.kind, ParamListKind::Signature) {
            self.skip_patterns(&p.params);
            match &p.rest {
                Some(pat) => {
                    match pat {
                        Pattern::Id(id) => {
                            proof {
                                assert(pat.spec_bound_names() =~= seq![*id]);
                                lemma_skip_idents_one(self@, *id);
                            }
                            self.push_resolution(id.node, None);
                        },
                        Pattern::Destructuring(ids) => {
                            proof {
                                assert(pat.spec_bound_names() =~= ids@);
                            }
                            self.skip_idents(ids);
                        },
                    }
                },
                None => {},
            }
        } else {
            let strict = self.scope_flags(fscope).strict_mode;
            let rule = classify(
                DeclKind::Parameter {
                    arrow_or_unique: matches!(p.kind, ParamListKind::Arrow) || matches!(
                        p.kind,
                        ParamListKind::Unique,
                    ),
                    strict,
                    simple: p.simple,
                },
            );
            self.bind_patterns(fscope, &p.params, rule);
            match &p.rest {
                Some(pat) => {
                    let rest_rule = classify(DeclKind::RestParameter);
                    match pat {
                        Pattern::Id(id) => {
                            proof {
                                assert(pat.spec_bound_names() =~= seq![*id]);
                                lemma_bind_idents_one(self@, fscope, *id, rest_rule, false);
                            }
                            self.bind_one(fscope, id, rest_rule, false);
                        },
                        Pattern::Destructuring(ids) => {
                            proof {
                                assert(pat.spec_bound_names() =~= ids@);
                            }
                            self.bind_idents(fscope, ids, rest_rule, false);
                        },
                    }
                },
                None => {},
            }
        }
    }
}


/// The nearest enclosing conditional-type scope, the redirection target of a
/// type parameter inside an `infer` clause.
pub open spec fn m_conditional_target(bv: BinderV, s: usize) -> Option<usize>
    decreases s,
{
    if (s as int) < bv.scopes.len() && bv.scopes[s as int].flags.ts_conditional {
        Some(s)
    } else if (s as int) < bv.scopes.len() {
        match bv.scopes[s as int].parent {
            Some(p) => if p < s {
                m_conditional_target(bv, p)
            } else {
                None
            },
            None => None,
        }
    } else {
        None
    }
}

/// In a well-formed state the conditional-target walk stays in range.
pub proof fn lemma_conditional_target_range(bv: BinderV, s: usize)
    requires
        bv.wf(),
        s < bv.scopes.len(),
    ensures
        match m_conditional_target(bv, s) {
            Some(t) => t < bv.scopes.len(),
            None => true,
        },
    decreases s,
{
    if !bv.scopes[s as int].flags.ts_conditional {
        match bv.scopes[s as int].parent {
            Some(p) => {
                if p < s {
                    lemma_conditional_target_range(bv, p);
                }
            },
            None => {},
        }
    }
}

/// A class name bound in the enclosing scope; the class body's own scope is
/// a separate node.
pub open spec fn m_bind_class(bv: BinderV, scope: usize, c: ClassNode) -> BinderV {
    match c.id {
        Some(id) => m_bind_one(bv, scope, id, spec_classify(DeclKind::ClassName), false),
        None => bv,
    }
}

/// An import binding, type-only when the specifier or its declaration is.
pub open spec fn m_bind_import(bv: BinderV, scope: usize, imp: ImportNode) -> BinderV {
    m_bind_one(
        bv,
        scope,
        imp.local,
        spec_classify(DeclKind::ImportName { type_only: imp.type_self || imp.type_decl }),
        false,
    )
}

/// A type parameter bound in the current scope, or, inside an `infer`
/// clause, in the nearest enclosing conditional-type scope.
pub open spec fn m_bind_type_param(bv: BinderV, scope: usize, tp: TypeParamNode) -> BinderV {
    let target = if tp.in_infer {
        match m_conditional_target(bv, scope) {
            Some(t) => t,
            None => scope,
        }
    } else {
        scope
    };
    m_bind_one(bv, target, tp.name, spec_classify(DeclKind::TypeParameterName), false)
}

/// Enum members declared in the enum's own scope, by name, with no
/// identifier node of their own.
pub open spec fn m_bind_enum_members(
    bv: BinderV,
    escope: usize,
    members: Seq<EnumMemberNode>,
) -> BinderV
    decreases members.len(),
{
    if members.len() == 0 {
        bv
    } else {
        m_bind_enum_members(
            m_declare_on_scope(
                bv,
                escope,
                members[0].span,
                members[0].name,
                spec_classify(DeclKind::EnumMemberName),
            ).0,
            escope,
            members.drop_first(),
        )
    }
}

/// An enum declaration: its name bound in the enclosing scope, its members
/// in the enum's own scope.
pub open spec fn m_bind_enum(bv: BinderV, scope: usize, e: EnumNode) -> BinderV {
    let declared = m_declare_on_scope(
        bv,
        scope,
        e.id.span,
        e.id.name,
        spec_classify(DeclKind::EnumName { constant: e.constant }),
    );
    let resolved = m_push_resolution(declared.0, e.id.node, Some(declared.1));
    let created = m_create_scope(resolved, scope, ScopeFlags::spec_empty());
    m_bind_enum_members(created.0, created.1, e.members@)
}

/// A function: its name bound in the enclosing scope (or created unattached
/// for the legacy `if`/`else`-arm pattern in non-strict code), then its own
/// scope with parameters and body. A no-side-effects pragma marks the name's
/// symbol.
pub open spec fn m_bind_function(bv: BinderV, scope: usize, f: FunctionNode) -> BinderV
    decreases f,
{
    let rule = spec_classify(DeclKind::FunctionName { typescript: bv.typescript });
    let named = match f.id {
        Some(id) => {
            if f.in_if_arm && !bv.scopes[scope as int].flags.strict_mode {
                let created = m_create_symbol(
                    bv,
                    id.span,
                    id.name,
                    rule.includes,
                    rule.excludes,
                    None,
                );
                let resolved = m_push_resolution(created.0, id.node, Some(created.1));
                if f.pure {
                    m_mark_no_side_effects(resolved, created.1)
                } else {
                    resolved
                }
            } else {
                let declared = m_declare_on_scope(bv, scope, id.span, id.name, rule);
                let resolved = m_push_resolution(declared.0, id.node, Some(declared.1));
                if f.pure {
                    m_mark_no_side_effects(resolved, declared.1)
                } else {
                    resolved
                }
            }
        },
        None => bv,
    };
    let created = m_create_scope(
        named,
        scope,
        ScopeFlags { function: true, strict_mode: f.strict, ..ScopeFlags::spec_empty() },
    );
    let tagged = m_mark_accessor(
        created.0,
        created.1,
        f.accessor is Getter,
        f.accessor is Setter,
    );
    let bound = m_bind_params(tagged, created.1, f.params);
    m_bind_items(bound, created.1, f.body@)
}

/// A catch clause: its own scope; a plain-identifier parameter is
/// shadow-declared there, a destructuring parameter binds its names as
/// block-scoped catch variables; the body shares the clause's scope.
pub open spec fn m_bind_catch(bv: BinderV, scope: usize, c: CatchNode) -> BinderV
    decreases c,
{
    let created = m_create_scope(bv, scope, ScopeFlags::spec_empty());
    let cscope = created.1;
    let bound = match c.param {
        Some(pat) => match pat {
            Pattern::Id(id) => {
                let declared = m_declare_shadow(
                    created.0,
                    cscope,
                    id.span,
                    id.name,
                    spec_classify(DeclKind::CatchSimple).includes,
                );
                m_push_resolution(declared.0, id.node, Some(declared.1))
            },
            Pattern::Destructuring(ids) => m_bind_idents(
                created.0,
                cscope,
                ids@,
                spec_classify(DeclKind::CatchPatternName),
                false,
            ),
        },
        None => created.0,
    };
    m_bind_items(bound, cscope, c.body@)
}

/// A namespace or module declaration: its name bound in the enclosing scope
/// (never for the special `global` block, whose name stays deliberately
/// unresolved), then its own scope, a hoisting boundary, with the body.
pub open spec fn m_bind_namespace(bv: BinderV, scope: usize, n: NamespaceNode) -> BinderV
    decreases n,
{
    let named = if n.is_global {
        m_push_resolution(bv, n.id.node, None)
    } else {
        m_bind_one(
            bv,
            scope,
            n.id,
            spec_classify(DeclKind::NamespaceName { ambient: n.declare }),
            false,
        )
    };
    let created = m_create_scope(
        named,
        scope,
        ScopeFlags { ts_module_block: true, ..ScopeFlags::spec_empty() },
    );
    m_bind_items(created.0, created.1, n.body@)
}

/// One node bound, dispatching on the declaration-node kind.
pub open spec fn m_bind_item(bv: BinderV, scope: usize, item: Item) -> BinderV
    decreases item,
{
    match item {
        Item::Declarator(d) => m_bind_declarator(bv, scope, d),
        Item::Func(f) => m_bind_function(bv, scope, f),
        Item::ClassDecl(c) => m_bind_class(bv, scope, c),
        Item::Catch(c) => m_bind_catch(bv, scope, c),
        Item::Block(flags, items) => {
            let created = m_create_scope(bv, scope, flags);
            m_bind_items(created.0, created.1, items@)
        },
        Item::Import(imp) => m_bind_import(bv, scope, imp),
        Item::TypeAlias(t) => m_bind_one(bv, scope, t.id, spec_classify(DeclKind::TypeAliasName), false),
        Item::Interface(t) => m_bind_one(
            bv,
            scope,
            t.id,
            spec_classify(DeclKind::InterfaceName),
            false,
        ),
        Item::EnumDecl(e) => m_bind_enum(bv, scope, e),
        Item::Namespace(n) => m_bind_namespace(bv, scope, n),
        Item::TypeParam(tp) => m_bind_type_param(bv, scope, tp),
    }
}

/// A list of nodes bound in document order.
pub open spec fn m_bind_items(bv: BinderV, scope: usize, items: Seq<Item>) -> BinderV
    decreases items,
{
    if items.len() == 0 {
        bv
    } else {
        m_bind_items(m_bind_item(bv, scope, items[0]), scope, items.drop_first())
    }
}

/// A whole program bound, starting from a fresh state whose root scope is
/// the program's top scope.
pub open spec fn m_bind_program(p: Program) -> BinderV {
    m_bind_items(m_new(p.typescript, p.strict), 0, p.items@)
}


impl Binder {
    /// Binds one node of the tree, dispatching on its kind; see
    /// [`m_bind_item`]. The scope tree only grows.
    #[verifier::rlimit(60)]
    pub fn bind_item(&mut self, scope: usize, item: &Item)
        requires
            old(self).wf(),
            scope < old(self)@.scopes.len(),
        ensures
            final(self)@ == m_bind_item(old(self)@, scope, *item),
            final(self)@.scopes.len() >= old(self)@.scopes.len(),
            final(self).wf(),
        decreases *item,
    {
        match item {
            Item::Declarator(d) => {
                self.bind_declarator(scope, d);
            },
            Item::Func(f) => {
                let rule = classify(DeclKind::FunctionName { typescript: self.is_typescript() });
                match &f.id {
                    Some(id) => {
                        if f.in_if_arm && !self.scope_flags(scope).strict_mode {
                            let created = self.create_symbol(
                                id.span,
                                &id.name,
                                rule.includes,
                                rule.excludes,
                                None,
                            );
                            self.push_resolution(id.node, Some(created));
                            if f.pure {
                                self.mark_no_side_effects(created);
                            }
                        } else {
                            let declared = self.declare_symbol_on_scope(
                                scope,
                                id.span,
                                &id.name,
                                rule,
                            );
                            self.push_resolution(id.node, Some(declared));
                            if f.pure {
                                self.mark_no_side_effects(declared);
                            }
                        }
                    },
                    None => {},
                }
                let fscope = self.create_scope(
                    scope,
                    ScopeFlags { function: true, strict_mode: f.strict, ..ScopeFlags::empty() },
                );
                self.mark_accessor(
                    fscope,
                    matches!(f.accessor, AccessorKind::Getter),
                    matches!(f.accessor, AccessorKind::Setter),
                );
                self.bind_params(fscope, &f.params);
                self.bind_items(fscope, &f.body);
            },
            Item::ClassDecl(c) => {
                match &c.id {
                    Some(id) => {
                        self.bind_one(scope, id, classify(DeclKind::ClassName), false);
                    },
                    None => {},
                }
            },
            Item::Catch(c) => {
                let cscope = self.create_scope(scope, ScopeFlags::empty());
                match &c.param {
                    Some(pat) => {
                        match pat {
                            Pattern::Id(id) => {
                                let includes = classify(DeclKind::CatchSimple).includes;
                                let declared = self.declare_shadow_symbol(
                                    cscope,
                                    id.span,
                                    &id.name,
                                    includes,
                                );
                                self.push_resolution(id.node, Some(declared));
                            },
                            Pattern::Destructuring(ids) => {
                                self.bind_idents(
                                    cscope,
                                    ids,
                                    classify(DeclKind::CatchPatternName),
                                    false,
                                );
                            },
                        }
                    },
                    None => {},
                }
                self.bind_items(cscope, &c.body);
            },
            Item::Block(flags, items) => {
                let child = self.create_scope(scope, *flags);
                self.bind_items(child, items);
            },
            Item::Import(imp) => {
                self.bind_one(
                    scope,
                    &imp.local,
                    classify(
                        DeclKind::ImportName { type_only: imp.type_self || imp.type_decl },
                    ),
                    false,
                );
            },
            Item::TypeAlias(t) => {
                self.bind_one(scope, &t.id, classify(DeclKind::TypeAliasName), false);
            },
            Item::Interface(t) => {
                self.bind_one(scope, &t.id, classify(DeclKind::InterfaceName), false);
            },
            Item::EnumDecl(e) => {
                let declared = self.declare_symbol_on_scope(
                    scope,
                    e.id.span,
                    &e.id.name,
                    classify(DeclKind::EnumName { constant: e.constant }),
                );
                self.push_resolution(e.id.node, Some(declared));
                let escope = self.create_scope(scope, ScopeFlags::empty());
                let member_rule = classify(DeclKind::EnumMemberName);
                let ghost bv0 = self@;
                proof {
                    assert(e.members@.skip(0) =~= e.members@);
                }
                let mut i: usize = 0;
                while i < e.members.len()
                    invariant
                        i <= e.members@.len(),
                        self.wf(),
                        escope < self@.scopes.len(),
                        self@.scopes.len() == bv0.scopes.len(),
                        member_rule == spec_classify(DeclKind::EnumMemberName),
                        m_bind_enum_members(self@, escope, e.members@.skip(i as int))
                            == m_bind_enum_members(bv0, escope, e.members@),
                    decreases e.members@.len() - i,
                {
                    proof {
                        assert(e.members@.skip(i as int)[0] == e.members@[i as int]);
                        assert(e.members@.skip(i as int).drop_first() =~= e.members@.skip(
                            i as int + 1,
                        ));
                    }
                    let _ = self.declare_symbol_on_scope(
                        escope,
                        e.members[i].span,
                        &e.members[i].name,
                        member_rule,
                    );
                    i = i + 1;
                }
                proof {
                    assert(e.members@.skip(e.members@.len() as int) =~= Seq::<
                        EnumMemberNode,
                    >::empty());
                }
            },
            Item::Namespace(n) => {
                if n.is_global {
                    self.push_resolution(n.id.node, None);
                } else {
                    self.bind_one(
                        scope,
                        &n.id,
                        classify(DeclKind::NamespaceName { ambient: n.declare }),
                        false,
                    );
                }
                let child = self.create_scope(
                    scope,
                    ScopeFlags { ts_module_block: true, ..ScopeFlags::empty() },
                );
                self.bind_items(child, &n.body);
            },
            Item::TypeParam(tp) => {
                let target = if tp.in_infer {
                    proof {
                        lemma_conditional_target_range(self@, scope);
                    }
                    match self.conditional_target(scope) {
                        Some(t) => t,
                        None => scope,
                    }
                } else {
                    scope
                };
                self.bind_one(target, &tp.name, classify(DeclKind::TypeParameterName), false);
            },
        }
    }

    /// The nearest enclosing conditional-type scope; see
    /// [`m_conditional_target`].
    fn conditional_target(&self, scope: usize) -> (r: Option<usize>)
        requires
            self.wf(),
            scope < self@.scopes.len(),
        ensures
            r == m_conditional_target(self@, scope),
        decreases scope,
    {
        if self.scope_flags(scope).ts_conditional {
            Some(scope)
        } else {
            match self.scope_parent(scope) {
                Some(p) => {
                    if p < scope {
                        self.conditional_target(p)
                    } else {
                        None
                    }
                },
                None => None,
            }
        }
    }

    /// Binds a list of nodes in document order; see [`m_bind_items`].
    pub fn bind_items(&mut self, scope: usize, items: &Vec<Item>)
        requires
            old(self).wf(),
            scope < old(self)@.scopes.len(),
        ensures
            final(self)@ == m_bind_items(old(self)@, scope, items@),
            final(self)@.scopes.len() >= old(self)@.scopes.len(),
            final(self).wf(),
        decreases items@,
    {
        let ghost bv0 = self@;
        proof {
            assert(items@.skip(0) =~= items@);
        }
        let mut i: usize = 0;
        while i < items.len()
            invariant
                i <= items@.len(),
                self.wf(),
                scope < self@.scopes.len(),
                self@.scopes.len() >= bv0.scopes.len(),
                m_bind_items(self@, scope, items@.skip(i as int)) == m_bind_items(
                    bv0,
                    scope,
                    items@,
                ),
            decreases items@.len() - i,
        {
            proof {
                assert(items@.skip(i as int)[0] == items@[i as int]);
                assert(items@.skip(i as int).drop_first() =~= items@.skip(i as int + 1));
            }
            self.bind_item(scope, &items[i]);
            i = i + 1;
        }
        proof {
            assert(items@.skip(items@.len() as int) =~= Seq::<Item>::empty());
        }
    }
}

/// Runs the pass over a whole program: a fresh state whose root scope is the
/// program's top scope, then every node in document order. The result is
/// exactly [`m_bind_program`] of the tree: binding is a deterministic
/// function of the visit order.
pub fn resolve_program(p: &Program) -> (b: Binder)
    ensures
        b@ == m_bind_program(*p),
        b.wf(),
{
    let mut b = Binder::new(p.typescript, p.strict);
    b.bind_items(0, &p.items);
    b
}

} // verus!

//! The pass's global guarantees.
//!
//! The central one: every binding identifier of the tree ends the pass with
//! exactly one entry in the resolution side table, in visit order, and is
//! resolved to a symbol unless it is deliberately left unresolved (a
//! signature-only parameter list, or the name of a `global` declaration
//! block). Well-formedness of the produced state, which `resolve_program`
//! also ensures, adds that every recorded symbol identity is in range and
//! that no scope's binding table maps one name to two symbols.

use vstd::prelude::*;

use crate::ast::{Ident, Item, ParamList, Pattern, Program};
use crate::binder::{
    m_add_binding, m_create_scope, m_create_symbol, m_declare_on_scope, m_declare_shadow,
    m_first_ledger_hit, m_hoist_declare, m_mark_accessor, m_mark_no_side_effects, m_merge_symbol,
    m_push_diagnostic, m_push_resolution, m_record_ledger, m_record_ledger_all, m_remove_binding,
    m_set_symbol_scope,
};
use crate::classify::BindingRule;
use crate::flags::ScopeFlags;
use crate::pass::{
    m_bind_declarator, m_bind_enum_members, m_bind_idents, m_bind_item, m_bind_items, m_bind_one,
    m_bind_params, m_bind_patterns, m_bind_program, m_skip_idents, m_skip_patterns,
};
use crate::state::{BinderV, Resolution};
use crate::ast::Span;

verus! {

/// What the pass owes one binding identifier: an entry under its node
/// identity, resolved (`bound`) or deliberately unresolved.
pub struct IdentEntry {
    pub node: usize,
    pub bound: bool,
}

/// The entries owed for a list of names.
pub open spec fn entries_of_idents(ids: Seq<Ident>, bound: bool) -> Seq<IdentEntry> {
    Seq::new(ids.len(), |i: int| IdentEntry { node: ids[i].node, bound: bound })
}

/// The entries owed for one pattern.
pub open spec fn entries_of_pattern(p: Pattern, bound: bool) -> Seq<IdentEntry> {
    entries_of_idents(p.spec_bound_names(), bound)
}

/// The entries owed for a list of patterns.
pub open spec fn entries_of_patterns(pats: Seq<Pattern>, bound: bool) -> Seq<IdentEntry>
    decreases pats.len(),
{
    if pats.len() == 0 {
        Seq::empty()
    } else {
        entries_of_pattern(pats[0], bound) + entries_of_patterns(pats.drop_first(), bound)
    }
}

/// The entries owed for a parameter list: every name, resolved unless the
/// list is signature-only.
pub open spec fn entries_of_params(p: ParamList) -> Seq<IdentEntry> {
    let bound = !(p.kind is Signature);
    let main = entries_of_patterns(p.params@, bound);
    match p.rest {
        Some(pat) => main + entries_of_pattern(pat, bound),
        None => main,
    }
}

/// The entries owed for one node, in visit order. Enum members bind by name
/// without an identifier node of their own, so they owe none.
pub open spec fn entries_of_item(item: Item) -> Seq<IdentEntry>
    decreases item,
{
    match item {
        Item::Declarator(d) => entries_of_pattern(d.pattern, true),
        Item::Func(f) => (match f.id {
            Some(id) => seq![IdentEntry { node: id.node, bound: true }],
            None => Seq::empty(),
        }) + entries_of_params(f.params) + entries_of_items(f.body@),
        Item::ClassDecl(c) => match c.id {
            Some(id) => seq![IdentEntry { node: id.node, bound: true }],
            None => Seq::empty(),
        },
        Item::Catch(c) => (match c.param {
            Some(pat) => entries_of_pattern(pat, true),
            None => Seq::empty(),
        }) + entries_of_items(c.body@),
        Item::Block(_flags, items) => entries_of_items(items@),
        Item::Import(imp) => seq![IdentEntry { node: imp.local.node, bound: true }],
        Item::TypeAlias(t) => seq![IdentEntry { node: t.id.node, bound: true }],
        Item::Interface(t) => seq![IdentEntry { node: t.id.node, bound: true }],
        Item::EnumDecl(e) => seq![IdentEntry { node: e.id.node, bound: true }],
        Item::Namespace(n) => seq![IdentEntry { node: n.id.node, bound: !n.is_global }]
            + entries_of_items(n.body@),
        Item::TypeParam(tp) => seq![IdentEntry { node: tp.name.node, bound: true }],
    }
}

/// The entries owed for a list of nodes.
pub open spec fn entries_of_items(items: Seq<Item>) -> Seq<IdentEntry>
    decreases items,
{
    if items.len() == 0 {
        Seq::empty()
    } else {
        entries_of_item(items[0]) + entries_of_items(items.drop_first())
    }
}

/// The entries owed for a whole program.
pub open spec fn entries_of_program(p: Program) -> Seq<IdentEntry> {
    entries_of_items(p.items@)
}

/// The resolution side table grew by exactly `entries`: the old entries are
/// untouched, and each new position carries the owed node identity and is
/// `Some` exactly when the identifier was owed a resolution.
pub open spec fn resolutions_extend(
    pre: Seq<Resolution>,
    post: Seq<Resolution>,
    entries: Seq<IdentEntry>,
) -> bool {
    &&& post.len() == pre.len() + entries.len()
    &&& forall|k: int| 0 <= k < pre.len() ==> post[k] == pre[k]
    &&& forall|k: int|
        0 <= k < entries.len() ==> (#[trigger] post[pre.len() + k]).node == entries[k].node && ((
        post[pre.len() + k].symbol is Some) <==> entries[k].bound)
}

/// Extension composes.
pub proof fn lemma_extend_trans(
    a: Seq<Resolution>,
    b: Seq<Resolution>,
    c: Seq<Resolution>,
    e1: Seq<IdentEntry>,
    e2: Seq<IdentEntry>,
)
    requires
        resolutions_extend(a, b, e1),
        resolutions_extend(b, c, e2),
    ensures
        resolutions_extend(a, c, e1 + e2),
{
    assert forall|k: int| 0 <= k < (e1 + e2).len() implies (#[trigger] c[a.len() + k]).node == (e1
        + e2)[k].node && ((c[a.len() + k].symbol is Some) <==> (e1 + e2)[k].bound) by {
        if k < e1.len() {
            assert(c[a.len() + k] == b[a.len() + k]);
            assert((e1 + e2)[k] == e1[k]);
        } else {
            assert(c[a.len() + k] == c[b.len() + (k - e1.len())]);
            assert((e1 + e2)[k] == e2[k - e1.len()]);
        }
    }
}

/// Declaring on a scope never touches the resolution side table.
pub proof fn lemma_declare_resolutions(
    bv: BinderV,
    scope: usize,
    span: Span,
    name: String,
    rule: BindingRule,
)
    ensures
        m_declare_on_scope(bv, scope, span, name, rule).0.resolutions == bv.resolutions,
{
}

/// Recording a name in many ledgers never touches the resolution table.
pub proof fn lemma_record_all_resolutions(
    bv: BinderV,
    scopes: Seq<usize>,
    name: String,
    sym: usize,
)
    ensures
        m_record_ledger_all(bv, scopes, name, sym).resolutions == bv.resolutions,
    decreases scopes.len(),
{
    if scopes.len() > 0 {
        lemma_record_all_resolutions(m_record_ledger(bv, scopes[0], name, sym), scopes.drop_first(), name, sym);
    }
}

/// Hoist-declaring never touches the resolution side table.
pub proof fn lemma_hoist_resolutions(
    bv: BinderV,
    current: usize,
    span: Span,
    name: String,
    rule: BindingRule,
)
    ensures
        m_hoist_declare(bv, current, span, name, rule).0.resolutions == bv.resolutions,
{
    let target = crate::binder::m_hoist_target(bv, current);
    let inters = crate::binder::m_intermediates(bv, current);
    match m_first_ledger_hit(bv, inters, name@) {
        Some(existing) => {
            let declared = m_hoist_declare(bv, current, span, name, rule);
            lemma_record_all_resolutions(
                {
                    let bv1 = if crate::conflict::spec_conflicts(
                        bv.symbols[existing as int].flags,
                        bv.symbols[existing as int].excludes,
                        rule.includes,
                        rule.excludes,
                    ) {
                        m_push_diagnostic(bv, span, name, existing)
                    } else {
                        bv
                    };
                    let bv2 = m_merge_symbol(bv1, existing, rule.includes, rule.excludes);
                    let bv3 = match bv.symbols[existing as int].scope {
                        Some(holder) => m_remove_binding(bv2, holder, name@),
                        None => bv2,
                    };
                    m_set_symbol_scope(m_add_binding(bv3, target, name, existing), existing, target)
                },
                inters,
                name,
                existing,
            );
        },
        None => {
            lemma_declare_resolutions(bv, target, span, name, rule);
            lemma_record_all_resolutions(
                m_declare_on_scope(bv, target, span, name, rule).0,
                inters,
                name,
                m_declare_on_scope(bv, target, span, name, rule).1,
            );
        },
    }
}

/// Binding one name appends exactly its resolved entry.
pub proof fn lemma_bind_one_entries(
    bv: BinderV,
    scope: usize,
    id: Ident,
    rule: BindingRule,
    hoist: bool,
)
    ensures
        resolutions_extend(
            bv.resolutions,
            m_bind_one(bv, scope, id, rule, hoist).resolutions,
            seq![IdentEntry { node: id.node, bound: true }],
        ),
{
    if hoist {
        lemma_hoist_resolutions(bv, scope, id.span, id.name, rule);
    } else {
        lemma_declare_resolutions(bv, scope, id.span, id.name, rule);
    }
}

/// Binding a list of names appends exactly their resolved entries.
pub proof fn lemma_bind_idents_entries(
    bv: BinderV,
    scope: usize,
    ids: Seq<Ident>,
    rule: BindingRule,
    hoist: bool,
)
    ensures
        resolutions_extend(
            bv.resolutions,
            m_bind_idents(bv, scope, ids, rule, hoist).resolutions,
            entries_of_idents(ids, true),
        ),
    decreases ids.len(),
{
    if ids.len() == 0 {
        assert(entries_of_idents(ids, true) =~= Seq::<IdentEntry>::empty());
    } else {
        let mid = m_bind_one(bv, scope, ids[0], rule, hoist);
        lemma_bind_one_entries(bv, scope, ids[0], rule, hoist);
        lemma_bind_idents_entries(mid, scope, ids.drop_first(), rule, hoist);
        lemma_extend_trans(
            bv.resolutions,
            mid.resolutions,
            m_bind_idents(bv, scope, ids, rule, hoist).resolutions,
            seq![IdentEntry { node: ids[0].node, bound: true }],
            entries_of_idents(ids.drop_first(), true),
        );
        assert(seq![IdentEntry { node: ids[0].node, bound: true }] + entries_of_idents(
            ids.drop_first(),
            true,
        ) =~= entries_of_idents(ids, true));
    }
}

/// Binding a list of patterns appends exactly their resolved entries.
pub proof fn lemma_bind_patterns_entries(
    bv: BinderV,
    scope: usize,
    pats: Seq<Pattern>,
    rule: BindingRule,
)
    ensures
        resolutions_extend(
            bv.resolutions,
            m_bind_patterns(bv, scope, pats, rule).resolutions,
            entries_of_patterns(pats, true),
        ),
    decreases pats.len(),
{
    if pats.len() == 0 {
        assert(entries_of_patterns(pats, true) =~= Seq::<IdentEntry>::empty());
    } else {
        let mid = m_bind_idents(bv, scope, pats[0].spec_bound_names(), rule, false);
        lemma_bind_idents_entries(bv, scope, pats[0].spec_bound_names(), rule, false);
        lemma_bind_patterns_entries(mid, scope, pats.drop_first(), rule);
        lemma_extend_trans(
            bv.resolutions,
            mid.resolutions,
            m_bind_patterns(bv, scope, pats, rule).resolutions,
            entries_of_pattern(pats[0], true),
            entries_of_patterns(pats.drop_first(), true),
        );
    }
}

/// Skipping a list of names appends exactly their unresolved entries.
pub proof fn lemma_skip_idents_entries(bv: BinderV, ids: Seq<Ident>)
    ensures
        resolutions_extend(
            bv.resolutions,
            m_skip_idents(bv, ids).resolutions,
            entries_of_idents(ids, false),
        ),
    decreases ids.len(),
{
    if ids.len() == 0 {
        assert(entries_of_idents(ids, false) =~= Seq::<IdentEntry>::empty());
    } else {
        let mid = m_push_resolution(bv, ids[0].node, None);
        lemma_skip_idents_entries(mid, ids.drop_first());
        lemma_extend_trans(
            bv.resolutions,
            mid.resolutions,
            m_skip_idents(bv, ids).resolutions,
            seq![IdentEntry { node: ids[0].node, bound: false }],
            entries_of_idents(ids.drop_first(), false),
        );
        assert(seq![IdentEntry { node: ids[0].node, bound: false }] + entries_of_idents(
            ids.drop_first(),
            false,
        ) =~= entries_of_idents(ids, false));
    }
}

/// Skipping a list of patterns appends exactly their unresolved entries.
pub proof fn lemma_skip_patterns_entries(bv: BinderV, pats: Seq<Pattern>)
    ensures
        resolutions_extend(
            bv.resolutions,
            m_skip_patterns(bv, pats).resolutions,
            entries_of_patterns(pats, false),
        ),
    decreases pats.len(),
{
    if pats.len() == 0 {
        assert(entries_of_patterns(pats, false) =~= Seq::<IdentEntry>::empty());
    } else {
        let mid = m_skip_idents(bv, pats[0].spec_bound_names());
        lemma_skip_idents_entries(bv, pats[0].spec_bound_names());
        lemma_skip_patterns_entries(mid, pats.drop_first());
        lemma_extend_trans(
            bv.resolutions,
            mid.resolutions,
            m_skip_patterns(bv, pats).resolutions,
            entries_of_pattern(pats[0], false),
            entries_of_patterns(pats.drop_first(), false),
        );
    }
}

/// Binding a parameter list appends exactly its owed entries.
pub proof fn lemma_bind_params_entries(bv: BinderV, fscope: usize, p: ParamList)
    ensures
        resolutions_extend(
            bv.resolutions,
            m_bind_params(bv, fscope, p).resolutions,
            entries_of_params(p),
        ),
{
    if p.kind is Signature {
        let mid = m_skip_patterns(bv, p.params@);
        lemma_skip_patterns_entries(bv, p.params@);
        match p.rest {
            Some(pat) => {
                lemma_skip_idents_entries(mid, pat.spec_bound_names());
                lemma_extend_trans(
                    bv.resolutions,
                    mid.resolutions,
                    m_bind_params(bv, fscope, p).resolutions,
                    entries_of_patterns(p.params@, false),
                    entries_of_pattern(pat, false),
                );
            },
            None => {},
        }
    } else {
        let rule = crate::classify::spec_classify(
            crate::classify::DeclKind::Parameter {
                arrow_or_unique: p.kind is Arrow || p.kind is Unique,
                strict: bv.scopes[fscope as int].flags.strict_mode,
                simple: p.simple,
            },
        );
        let mid = m_bind_patterns(bv, fscope, p.params@, rule);
        lemma_bind_patterns_entries(bv, fscope, p.params@, rule);
        match p.rest {
            Some(pat) => {
                lemma_bind_idents_entries(
                    mid,
                    fscope,
                    pat.spec_bound_names(),
                    crate::classify::spec_classify(crate::classify::DeclKind::RestParameter),
                    false,
                );
                lemma_extend_trans(
                    bv.resolutions,
                    mid.resolutions,
                    m_bind_params(bv, fscope, p).resolutions,
                    entries_of_patterns(p.params@, true),
                    entries_of_pattern(pat, true),
                );
            },
            None => {},
        }
    }
}

/// Binding a declarator appends exactly its resolved entries.
pub proof fn lemma_bind_declarator_entries(bv: BinderV, scope: usize, d: crate::ast::Declarator)
    ensures
        resolutions_extend(
            bv.resolutions,
            m_bind_declarator(bv, scope, d).resolutions,
            entries_of_pattern(d.pattern, true),
        ),
{
    let rule = crate::classify::spec_classify(crate::pass::declarator_kind(d.kind));
    let hoist = d.kind is Var;
    match d.pattern {
        Pattern::Id(id) => {
            if hoist {
                lemma_hoist_resolutions(bv, scope, id.span, id.name, rule);
            } else {
                lemma_declare_resolutions(bv, scope, id.span, id.name, rule);
            }
            assert(entries_of_pattern(d.pattern, true) =~= seq![
                IdentEntry { node: id.node, bound: true },
            ]);
        },
        Pattern::Destructuring(ids) => {
            lemma_bind_idents_entries(bv, scope, ids@, rule, hoist);
        },
    }
}

/// Binding enum members never touches the resolution side table.
pub proof fn lemma_enum_members_resolutions(
    bv: BinderV,
    escope: usize,
    members: Seq<crate::ast::EnumMemberNode>,
)
    ensures
        m_bind_enum_members(bv, escope, members).resolutions == bv.resolutions,
    decreases members.len(),
{
    if members.len() > 0 {
        let mid = m_declare_on_scope(
            bv,
            escope,
            members[0].span,
            members[0].name,
            crate::classify::spec_classify(crate::classify::DeclKind::EnumMemberName),
        ).0;
        lemma_declare_resolutions(
            bv,
            escope,
            members[0].span,
            members[0].name,
            crate::classify::spec_classify(crate::classify::DeclKind::EnumMemberName),
        );
        lemma_enum_members_resolutions(mid, escope, members.drop_first());
    }
}

/// Binding one node appends exactly its owed entries.
pub proof fn lemma_bind_item_entries(bv: BinderV, scope: usize, item: Item)
    ensures
        resolutions_extend(
            bv.resolutions,
            m_bind_item(bv, scope, item).resolutions,
            entries_of_item(item),
        ),
    decreases item, 1int,
{
    match item {
        Item::Declarator(d) => {
            lemma_bind_declarator_entries(bv, scope, d);
        },
        Item::Func(f) => {
            let rule = crate::classify::spec_classify(
                crate::classify::DeclKind::FunctionName { typescript: bv.typescript },
            );
            let head = match f.id {
                Some(id) => seq![IdentEntry { node: id.node, bound: true }],
                None => Seq::<IdentEntry>::empty(),
            };
            let named = match f.id {
                Some(id) => {
                    if f.in_if_arm && !bv.scopes[scope as int].flags.strict_mode {
                        let created = m_create_symbol(
                            bv,
                            id.span,
                            id.name,
                            rule.includes,
                            rule.excludes,
                            None,
                        );
                        let resolved = m_push_resolution(created.0, id.node, Some(created.1));
                        if f.pure {
                            m_mark_no_side_effects(resolved, created.1)
                        } else {
                            resolved
                        }
                    } else {
                        let declared = m_declare_on_scope(bv, scope, id.span, id.name, rule);
                        let resolved = m_push_resolution(declared.0, id.node, Some(declared.1));
                        if f.pure {
                            m_mark_no_side_effects(resolved, declared.1)
                        } else {
                            resolved
                        }
                    }
                },
                None => bv,
            };
            match f.id {
                Some(id) => {
                    if !(f.in_if_arm && !bv.scopes[scope as int].flags.strict_mode) {
                        lemma_declare_resolutions(bv, scope, id.span, id.name, rule);
                    }
                },
                None => {},
            }
            assert(resolutions_extend(bv.resolutions, named.resolutions, head));
            let created = m_create_scope(
                named,
                scope,
                ScopeFlags { function: true, strict_mode: f.strict, ..ScopeFlags::spec_empty() },
            );
            let tagged = m_mark_accessor(
                created.0,
                created.1,
                f.accessor is Getter,
                f.accessor is Setter,
            );
            let bound = m_bind_params(tagged, created.1, f.params);
            lemma_bind_params_entries(tagged, created.1, f.params);
            lemma_bind_items_entries(bound, created.1, f.body@);
            lemma_extend_trans(
                named.resolutions,
                bound.resolutions,
                m_bind_item(bv, scope, item).resolutions,
                entries_of_params(f.params),
                entries_of_items(f.body@),
            );
            lemma_extend_trans(
                bv.resolutions,
                named.resolutions,
                m_bind_item(bv, scope, item).resolutions,
                head,
                entries_of_params(f.params) + entries_of_items(f.body@),
            );
            assert(head + (entries_of_params(f.params) + entries_of_items(f.body@))
                =~= entries_of_item(item));
        },
        Item::ClassDecl(c) => {
            match c.id {
                Some(id) => {
                    lemma_bind_one_entries(
                        bv,
                        scope,
                        id,
                        crate::classify::spec_classify(crate::classify::DeclKind::ClassName),
                        false,
                    );
                },
                None => {},
            }
        },
        Item::Catch(c) => {
            let created = m_create_scope(bv, scope, ScopeFlags::spec_empty());
            let cscope = created.1;
            let head = match c.param {
                Some(pat) => entries_of_pattern(pat, true),
                None => Seq::<IdentEntry>::empty(),
            };
            let bound = match c.param {
                Some(pat) => match pat {
                    Pattern::Id(id) => {
                        let declared = m_declare_shadow(
                            created.0,
                            cscope,
                            id.span,
                            id.name,
                            crate::classify::spec_classify(
                                crate::classify::DeclKind::CatchSimple,
                            ).includes,
                        );
                        m_push_resolution(declared.0, id.node, Some(declared.1))
                    },
                    Pattern::Destructuring(ids) => m_bind_idents(
                        created.0,
                        cscope,
                        ids@,
                        crate::classify::spec_classify(
                            crate::classify::DeclKind::CatchPatternName,
                        ),
                        false,
                    ),
                },
                None => created.0,
            };
            match c.param {
                Some(pat) => match pat {
                    Pattern::Id(id) => {
                        assert(entries_of_pattern(pat, true) =~= seq![
                            IdentEntry { node: id.node, bound: true },
                        ]);
                        assert(resolutions_extend(bv.resolutions, bound.resolutions, head));
                    },
                    Pattern::Destructuring(ids) => {
                        lemma_bind_idents_entries(
                            created.0,
                            cscope,
                            ids@,
                            crate::classify::spec_classify(
                                crate::classify::DeclKind::CatchPatternName,
                            ),
                            false,
                        );
                    },
                },
                None => {},
            }
            assert(resolutions_extend(bv.resolutions, bound.resolutions, head));
            lemma_bind_items_entries(bound, cscope, c.body@);
            lemma_extend_trans(
                bv.resolutions,
                bound.resolutions,
                m_bind_item(bv, scope, item).resolutions,
                head,
                entries_of_items(c.body@),
            );
            assert(head + entries_of_items(c.body@) =~= entries_of_item(item));
        },
        Item::Block(_flags, items) => {
            let created = m_create_scope(bv, scope, _flags);
            lemma_bind_items_entries(created.0, created.1, items@);
        },
        Item::Import(imp) => {
            lemma_bind_one_entries(
                bv,
                scope,
                imp.local,
                crate::classify::spec_classify(
                    crate::classify::DeclKind::ImportName {
                        type_only: imp.type_self || imp.type_decl,
                    },
                ),
                false,
            );
        },
        Item::TypeAlias(t) => {
            lemma_bind_one_entries(
                bv,
                scope,
                t.id,
                crate::classify::spec_classify(crate::classify::DeclKind::TypeAliasName),
                false,
            );
        },
        Item::Interface(t) => {
            lemma_bind_one_entries(
                bv,
                scope,
                t.id,
                crate::classify::spec_classify(crate::classify::DeclKind::InterfaceName),
                false,
            );
        },
        Item::EnumDecl(e) => {
            let declared = m_declare_on_scope(
                bv,
                scope,
                e.id.span,
                e.id.name,
                crate::classify::spec_classify(
                    crate::classify::DeclKind::EnumName { constant: e.constant },
                ),
            );
            lemma_declare_resolutions(
                bv,
                scope,
                e.id.span,
                e.id.name,
                crate::classify::spec_classify(
                    crate::classify::DeclKind::EnumName { constant: e.constant },
                ),
            );
            let resolved = m_push_resolution(declared.0, e.id.node, Some(declared.1));
            let created = m_create_scope(resolved, scope, ScopeFlags::spec_empty());
            lemma_enum_members_resolutions(created.0, created.1, e.members@);
        },
        Item::Namespace(n) => {
            let head = seq![IdentEntry { node: n.id.node, bound: !n.is_global }];
            let named = if n.is_global {
                m_push_resolution(bv, n.id.node, None)
            } else {
                m_bind_one(
                    bv,
                    scope,
                    n.id,
                    crate::classify::spec_classify(
                        crate::classify::DeclKind::NamespaceName { ambient: n.declare },
                    ),
                    false,
                )
            };
            if !n.is_global {
                lemma_bind_one_entries(
                    bv,
                    scope,
                    n.id,
                    crate::classify::spec_classify(
                        crate::classify::DeclKind::NamespaceName { ambient: n.declare },
                    ),
                    false,
                );
            }
            assert(resolutions_extend(bv.resolutions, named.resolutions, head));
            let created = m_create_scope(
                named,
                scope,
                ScopeFlags { ts_module_block: true, ..ScopeFlags::spec_empty() },
            );
            lemma_bind_items_entries(created.0, created.1, n.body@);
            lemma_extend_trans(
                bv.resolutions,
                named.resolutions,
                m_bind_item(bv, scope, item).resolutions,
                head,
                entries_of_items(n.body@),
            );
            assert(head + entries_of_items(n.body@) =~= entries_of_item(item));
        },
        Item::TypeParam(tp) => {
            let target = if tp.in_infer {
                match crate::pass::m_conditional_target(bv, scope) {
                    Some(t) => t,
                    None => scope,
                }
            } else {
                scope
            };
            lemma_bind_one_entries(
                bv,
                target,
                tp.name,
                crate::classify::spec_classify(crate::classify::DeclKind::TypeParameterName),
                false,
            );
        },
    }
}

/// Binding a list of nodes appends exactly their owed entries.
pub proof fn lemma_bind_items_entries(bv: BinderV, scope: usize, items: Seq<Item>)
    ensures
        resolutions_extend(
            bv.resolutions,
            m_bind_items(bv, scope, items).resolutions,
            entries_of_items(items),
        ),
    decreases items, 0int,
{
    if items.len() > 0 {
        let mid = m_bind_item(bv, scope, items[0]);
        lemma_bind_item_entries(bv, scope, items[0]);
        lemma_bind_items_entries(mid, scope, items.drop_first());
        lemma_extend_trans(
            bv.resolutions,
            mid.resolutions,
            m_bind_items(bv, scope, items).resolutions,
            entries_of_item(items[0]),
            entries_of_items(items.drop_first()),
        );
    }
}

/// Every binding identifier of a program ends the pass with exactly one
/// entry in the resolution side table, in visit order, under its node
/// identity; the entry carries a symbol unless the identifier is
/// deliberately left unresolved (a signature-only parameter list, or the
/// name of a `global` declaration block). `resolve_program` further ensures
/// well-formedness of the result, under which every recorded symbol identity
/// is a valid index into the symbol table.
pub proof fn lemma_every_identifier_resolved(p: Program)
    ensures
        m_bind_program(p).resolutions.len() == entries_of_program(p).len(),
        forall|k: int|
            0 <= k < entries_of_program(p).len() ==> (#[trigger] m_bind_program(
                p,
            ).resolutions[k]).node == entries_of_program(p)[k].node && ((m_bind_program(
                p,
            ).resolutions[k].symbol is Some) <==> entries_of_program(p)[k].bound),
{
    let start = crate::binder::m_new(p.typescript, p.strict);
    lemma_bind_items_entries(start, 0, p.items@);
    let out = m_bind_program(p);
    let entries = entries_of_program(p);
    assert forall|k: int| 0 <= k < entries.len() implies (#[trigger] out.resolutions[k]).node
        == entries[k].node && ((out.resolutions[k].symbol is Some) <==> entries[k].bound) by {
        assert(out.resolutions[start.resolutions.len() + k] == out.resolutions[k]);
        assert((#[trigger] out.resolutions[start.resolutions.len() + k]).node == entries[k].node
            && ((out.resolutions[start.resolutions.len() + k].symbol is Some) <==> entries[k].bound));
    }
}

/// Re-resolving from scratch is idempotent: the pass is a pure function of
/// the tree, so any two runs over the same unmodified program, each from a
/// fresh state, produce structurally identical scope and symbol graphs.
/// `resolve_program` ensures each run's view equals `m_bind_program` of the
/// tree, so two runs agree exactly, identities included.
pub proof fn lemma_rebind_agrees(p: Program, first: BinderV, second: BinderV)
    requires
        first == m_bind_program(p),
        second == m_bind_program(p),
    ensures
        first == second,
{
}

/// Within one scope's live binding table, a name maps to at most one symbol:
/// distinct entries of a well-formed scope carry distinct names.
pub proof fn lemma_binding_table_unique(bv: BinderV, scope: int, i: int, j: int)
    requires
        bv.wf(),
        0 <= scope < bv.scopes.len(),
        0 <= i < j < bv.scopes[scope].bindings.len(),
    ensures
        bv.scopes[scope].bindings[i].name@ != bv.scopes[scope].bindings[j].name@,
{
}

} // verus!

//! Edge cases: signature-only parameter lists, the legacy `if`/`else`-arm
//! function pattern, accessor tagging, namespaces, infer-clause type
//! parameters, destructuring, rest elements and the no-side-effects mark.

use binder::ast::{
    AccessorKind, CatchNode, Declarator, FunctionNode, Ident, Item, NamespaceNode, ParamList,
    ParamListKind, Pattern, Program, Span, TypeParamNode, VarKind,
};
use binder::flags::ScopeFlags;
use binder::pass::resolve_program;

fn ident(node: usize, name: &str) -> Ident {
    Ident {
        node,
        span: Span { start: node as u32 * 10, end: node as u32 * 10 + 1 },
        name: name.to_string(),
    }
}

fn script(items: Vec<Item>) -> Program {
    Program { typescript: false, strict: false, items }
}

fn ts(items: Vec<Item>) -> Program {
    Program { typescript: true, strict: false, items }
}

/// Signature-only parameter lists bind nothing: their names end the pass
/// deliberately unresolved and no symbol is created.
#[test]
fn signature_parameters_stay_unresolved() {
    let p = ts(vec![Item::Func(FunctionNode {
        id: Some(ident(0, "f")),
        in_if_arm: false,
        pure: false,
        accessor: AccessorKind::NotAccessor,
        strict: false,
        params: ParamList {
            kind: ParamListKind::Signature,
            simple: true,
            params: vec![Pattern::Id(ident(1, "a")), Pattern::Id(ident(2, "b"))],
            rest: Some(Pattern::Id(ident(3, "r"))),
        },
        body: vec![],
    })]);
    let b = resolve_program(&p);
    // only the function name became a symbol
    assert_eq!(b.symbol_count(), 1);
    assert_eq!(b.resolution_of(0).unwrap().symbol, Some(0));
    for node in 1..4 {
        let r = b.resolution_of(node).unwrap();
        assert_eq!(r.symbol, None);
    }
}

/// A function declaration in an `if`/`else` arm of non-strict code gets a
/// symbol for its identifier but no live binding in any scope.
#[test]
fn if_arm_function_is_unattached_in_sloppy_code() {
    let f = |strict: bool| Program {
        typescript: false,
        strict,
        items: vec![Item::Func(FunctionNode {
            id: Some(ident(0, "g")),
            in_if_arm: true,
            pure: false,
            accessor: AccessorKind::NotAccessor,
            strict: false,
            params: ParamList {
                kind: ParamListKind::Normal,
                simple: true,
                params: vec![],
                rest: None,
            },
            body: vec![],
        })],
    };
    let sloppy = resolve_program(&f(false));
    assert_eq!(sloppy.symbol_count(), 1);
    assert_eq!(sloppy.resolution_of(0).unwrap().symbol, Some(0));
    assert_eq!(sloppy.symbol_scope(0), None);
    assert_eq!(sloppy.get_binding(0, &"g".to_string()), None);

    // in strict code the pattern binds normally
    let strict = resolve_program(&f(true));
    assert_eq!(strict.symbol_scope(0), Some(0));
    assert_eq!(strict.get_binding(0, &"g".to_string()), Some(0));
}

/// A getter's function scope is tagged once the enclosing property's kind is
/// known.
#[test]
fn accessor_kind_tags_the_function_scope() {
    let p = script(vec![Item::Func(FunctionNode {
        id: None,
        in_if_arm: false,
        pure: false,
        accessor: AccessorKind::Getter,
        strict: false,
        params: ParamList {
            kind: ParamListKind::Unique,
            simple: true,
            params: vec![],
            rest: None,
        },
        body: vec![],
    })]);
    let b = resolve_program(&p);
    let flags = b.scope_flags(1);
    assert!(flags.get_accessor);
    assert!(!flags.set_accessor);
    assert!(flags.function);
}

/// A namespace binds its name in the enclosing scope and is a hoisting
/// boundary for its body; the special `global` block is never bound.
#[test]
fn namespace_binds_name_and_bounds_hoisting() {
    let p = ts(vec![Item::Namespace(NamespaceNode {
        id: ident(0, "N"),
        is_global: false,
        declare: true,
        body: vec![Item::Block(
            ScopeFlags::empty(),
            vec![Item::Declarator(Declarator {
                kind: VarKind::Var,
                pattern: Pattern::Id(ident(1, "v")),
                init_pure: false,
            })],
        )],
    })]);
    let b = resolve_program(&p);
    assert_eq!(b.diagnostic_count(), 0);
    let n = b.resolution_of(0).unwrap().symbol.unwrap();
    let nf = b.symbol_flags(n);
    assert!(nf.namespace_module);
    assert!(nf.ambient);
    // the var hoists to the namespace scope (1), not the top scope
    let v = b.resolution_of(1).unwrap().symbol.unwrap();
    assert_eq!(b.symbol_scope(v), Some(1));
    assert_eq!(b.get_binding(0, &"v".to_string()), None);

    let g = resolve_program(&ts(vec![Item::Namespace(NamespaceNode {
        id: ident(0, "global"),
        is_global: true,
        declare: true,
        body: vec![],
    })]));
    assert_eq!(g.symbol_count(), 0);
    assert_eq!(g.resolution_of(0).unwrap().symbol, None);
}

/// A type parameter binds in the current scope, but inside an `infer` clause
/// it is redirected to the nearest conditional-type scope.
#[test]
fn infer_type_parameter_targets_conditional_scope() {
    let conditional = ScopeFlags { ts_conditional: true, ..ScopeFlags::empty() };
    let p = ts(vec![Item::Block(
        conditional,
        vec![Item::Block(
            ScopeFlags::empty(),
            vec![Item::TypeParam(TypeParamNode { name: ident(0, "U"), in_infer: true })],
        )],
    )]);
    let b = resolve_program(&p);
    // scopes: 0 top, 1 conditional, 2 inner
    let u = b.resolution_of(0).unwrap().symbol.unwrap();
    assert_eq!(b.symbol_scope(u), Some(1));
    assert_eq!(b.get_binding(1, &"U".to_string()), Some(u));
    assert_eq!(b.get_binding(2, &"U".to_string()), None);

    // without the infer marker it binds where it stands
    let p2 = ts(vec![Item::Block(
        conditional,
        vec![Item::Block(
            ScopeFlags::empty(),
            vec![Item::TypeParam(TypeParamNode { name: ident(0, "U"), in_infer: false })],
        )],
    )]);
    let b2 = resolve_program(&p2);
    let u2 = b2.resolution_of(0).unwrap().symbol.unwrap();
    assert_eq!(b2.symbol_scope(u2), Some(2));
}

/// A destructuring catch parameter binds each name as a block-scoped catch
/// variable.
#[test]
fn destructuring_catch_parameter_is_block_scoped() {
    let p = script(vec![Item::Catch(CatchNode {
        param: Some(Pattern::Destructuring(vec![ident(0, "a"), ident(1, "b")])),
        body: vec![],
    })]);
    let b = resolve_program(&p);
    assert_eq!(b.symbol_count(), 2);
    for sym in 0..2 {
        let f = b.symbol_flags(sym);
        assert!(f.block_scoped);
        assert!(f.catch_var);
        assert!(!f.function_scoped);
    }
}

/// A rest element makes duplicates illegal even in otherwise simple lists.
#[test]
fn rest_parameter_forbids_duplicates() {
    let p = script(vec![Item::Func(FunctionNode {
        id: None,
        in_if_arm: false,
        pure: false,
        accessor: AccessorKind::NotAccessor,
        strict: false,
        params: ParamList {
            kind: ParamListKind::Normal,
            simple: false,
            params: vec![Pattern::Id(ident(0, "a"))],
            rest: Some(Pattern::Id(ident(1, "a"))),
        },
        body: vec![],
    })]);
    let b = resolve_program(&p);
    assert_eq!(b.diagnostic_count(), 1);
}

/// A destructuring declarator binds every name it contains.
#[test]
fn destructuring_declarator_binds_all_names() {
    let p = script(vec![Item::Declarator(Declarator {
        kind: VarKind::Let,
        pattern: Pattern::Destructuring(vec![ident(0, "a"), ident(1, "b"), ident(2, "c")]),
        init_pure: false,
    })]);
    let b = resolve_program(&p);
    assert_eq!(b.symbol_count(), 3);
    for node in 0..3 {
        assert!(b.resolution_of(node).unwrap().symbol.is_some());
    }
}

/// A plain-identifier declarator whose initializer carries the
/// no-side-effects pragma marks its symbol; a destructuring one does not.
#[test]
fn pure_initializer_marks_the_symbol() {
    let p = script(vec![
        Item::Declarator(Declarator {
            kind: VarKind::Const,
            pattern: Pattern::Id(ident(0, "f")),
            init_pure: true,
        }),
        Item::Declarator(Declarator {
            kind: VarKind::Const,
            pattern: Pattern::Id(ident(1, "g")),
            init_pure: false,
        }),
    ]);
    let b = resolve_program(&p);
    assert!(b.symbol_no_side_effects(0));
    assert!(!b.symbol_no_side_effects(1));
}

/// A pure function declaration marks its own symbol.
#[test]
fn pure_function_marks_its_symbol() {
    let p = script(vec![Item::Func(FunctionNode {
        id: Some(ident(0, "f")),
        in_if_arm: false,
        pure: true,
        accessor: AccessorKind::NotAccessor,
        strict: false,
        params: ParamList {
            kind: ParamListKind::Normal,
            simple: true,
            params: vec![],
            rest: None,
        },
        body: vec![],
    })]);
    let b = resolve_program(&p);
    assert!(b.symbol_no_side_effects(0));
}

/// The empty program produces only the root scope.
#[test]
fn empty_program_has_root_scope_only() {
    let b = resolve_program(&script(vec![]));
    assert_eq!(b.scope_count(), 1);
    assert_eq!(b.symbol_count(), 0);
    assert_eq!(b.diagnostic_count(), 0);
    assert_eq!(b.resolution_count(), 0);
    assert!(b.scope_flags(0).top);
    assert_eq!(b.scope_parent(0), None);
    assert_eq!(b.resolution_of(7), None);
}

/// Strict mode is inherited by every child scope.
#[test]
fn strict_mode_is_inherited() {
    let p = Program {
        typescript: false,
        strict: true,
        items: vec![Item::Block(
            ScopeFlags::empty(),
            vec![Item::Block(ScopeFlags::empty(), vec![])],
        )],
    };
    let b = resolve_program(&p);
    assert!(b.scope_flags(0).strict_mode);
    assert!(b.scope_flags(1).strict_mode);
    assert!(b.scope_flags(2).strict_mode);
}

/// A function with its own strict directive is strict inside a sloppy
/// program.
#[test]
fn function_directive_makes_its_scope_strict() {
    let p = script(vec![Item::Func(FunctionNode {
        id: Some(ident(0, "f")),
        in_if_arm: false,
        pure: false,
        accessor: AccessorKind::NotAccessor,
        strict: true,
        params: ParamList {
            kind: ParamListKind::Normal,
            simple: true,
            params: vec![Pattern::Id(ident(1, "a")), Pattern::Id(ident(2, "a"))],
            rest: None,
        },
        body: vec![],
    })]);
    let b = resolve_program(&p);
    assert!(!b.scope_flags(0).strict_mode);
    assert!(b.scope_flags(1).strict_mode);
    // and therefore the duplicate parameter conflicts
    assert_eq!(b.diagnostic_count(), 1);
}

/// The ancestor walk runs from the scope to the root, inclusive, innermost
/// first, and the binding table is enumerable.
#[test]
fn scope_ancestors_and_binding_table() {
    let p = script(vec![Item::Block(
        ScopeFlags::empty(),
        vec![
            Item::Block(ScopeFlags::empty(), vec![]),
            Item::Declarator(Declarator {
                kind: VarKind::Let,
                pattern: Pattern::Id(ident(0, "x")),
                init_pure: false,
            }),
        ],
    )]);
    let b = resolve_program(&p);
    assert_eq!(b.scope_ancestors(2), vec![2, 1, 0]);
    assert_eq!(b.scope_ancestors(0), vec![0]);
    assert_eq!(b.binding_count(1), 1);
    let entry = b.binding_at(1, 0);
    assert_eq!(entry.name, "x");
    assert_eq!(entry.symbol, 0);
}

/// Conflicts are collected, not fatal: one pass surfaces every conflict and
/// keeps binding the rest of the tree.
#[test]
fn conflicts_do_not_stop_the_pass() {
    let p = script(vec![
        Item::Declarator(Declarator {
            kind: VarKind::Let,
            pattern: Pattern::Id(ident(0, "a")),
            init_pure: false,
        }),
        Item::Declarator(Declarator {
            kind: VarKind::Let,
            pattern: Pattern::Id(ident(1, "a")),
            init_pure: false,
        }),
        Item::Declarator(Declarator {
            kind: VarKind::Let,
            pattern: Pattern::Id(ident(2, "b")),
            init_pure: false,
        }),
        Item::Declarator(Declarator {
            kind: VarKind::Let,
            pattern: Pattern::Id(ident(3, "b")),
            init_pure: false,
        }),
    ]);
    let b = resolve_program(&p);
    assert_eq!(b.diagnostic_count(), 2);
    // every identifier still resolved
    for node in 0..4 {
        assert!(b.resolution_of(node).unwrap().symbol.is_some());
    }
    assert_eq!(b.diagnostic_at(0).name, "a");
    assert_eq!(b.diagnostic_at(1).name, "b");
}

/// The reference list a later use-site resolution phase fills is exposed and
/// grows per symbol.
#[test]
fn reference_list_is_exposed() {
    let mut b = resolve_program(&script(vec![Item::Declarator(Declarator {
        kind: VarKind::Let,
        pattern: Pattern::Id(ident(0, "x")),
        init_pure: false,
    })]));
    assert!(b.symbol_references(0).is_empty());
    b.add_reference(0, 41);
    b.add_reference(0, 42);
    assert_eq!(b.symbol_references(0).as_slice(), &[41, 42]);
}

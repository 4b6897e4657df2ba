//! Scenario tests: small programs with known scope/symbol graphs.

use binder::ast::{
    AccessorKind, CatchNode, ClassNode, Declarator, FunctionNode, Ident, Item, ParamList,
    ParamListKind, Pattern, Program, Span, VarKind,
};
use binder::binder::Binder;
use binder::flags::ScopeFlags;
use binder::pass::resolve_program;

fn ident(node: usize, name: &str) -> Ident {
    Ident {
        node,
        span: Span { start: node as u32 * 10, end: node as u32 * 10 + 1 },
        name: name.to_string(),
    }
}

fn var_decl(kind: VarKind, node: usize, name: &str) -> Item {
    Item::Declarator(Declarator {
        kind,
        pattern: Pattern::Id(ident(node, name)),
        init_pure: false,
    })
}

fn block(items: Vec<Item>) -> Item {
    Item::Block(ScopeFlags::empty(), items)
}

fn simple_params(pats: Vec<Pattern>) -> ParamList {
    ParamList { kind: ParamListKind::Normal, simple: true, params: pats, rest: None }
}

fn func(node: usize, name: &str, params: ParamList, body: Vec<Item>) -> Item {
    Item::Func(FunctionNode {
        id: Some(ident(node, name)),
        in_if_arm: false,
        pure: false,
        accessor: AccessorKind::NotAccessor,
        strict: false,
        params,
        body,
    })
}

fn script(items: Vec<Item>) -> Program {
    Program { typescript: false, strict: false, items }
}

fn binding_of(b: &Binder, scope: usize, name: &str) -> Option<usize> {
    b.get_binding(scope, &name.to_string())
}

fn ledger_of(b: &Binder, scope: usize, name: &str) -> Option<usize> {
    b.get_ledger(scope, &name.to_string())
}

/// `var x; { var x; }`: exactly one symbol, owned by the top scope; the inner
/// block holds no live binding for the name.
#[test]
fn var_redeclaration_in_block_merges() {
    let p = script(vec![
        var_decl(VarKind::Var, 0, "x"),
        block(vec![var_decl(VarKind::Var, 1, "x")]),
    ]);
    let b = resolve_program(&p);
    assert_eq!(b.symbol_count(), 1);
    assert_eq!(b.diagnostic_count(), 0);
    assert_eq!(b.scope_count(), 2);
    assert_eq!(b.symbol_scope(0), Some(0));
    assert_eq!(binding_of(&b, 0, "x"), Some(0));
    assert_eq!(binding_of(&b, 1, "x"), None);
    // both identifier nodes resolve to the one symbol
    assert_eq!(b.resolution_of(0).unwrap().symbol, Some(0));
    assert_eq!(b.resolution_of(1).unwrap().symbol, Some(0));
    // the block carries the name in its hoisting ledger
    assert_eq!(ledger_of(&b, 1, "x"), Some(0));
}

/// `let x; { let x; }`: two distinct symbols, no conflict, each owned by its
/// own scope.
#[test]
fn let_shadowing_in_block_is_legal() {
    let p = script(vec![
        var_decl(VarKind::Let, 0, "x"),
        block(vec![var_decl(VarKind::Let, 1, "x")]),
    ]);
    let b = resolve_program(&p);
    assert_eq!(b.symbol_count(), 2);
    assert_eq!(b.diagnostic_count(), 0);
    assert_eq!(b.symbol_scope(0), Some(0));
    assert_eq!(b.symbol_scope(1), Some(1));
    assert_eq!(binding_of(&b, 0, "x"), Some(0));
    assert_eq!(binding_of(&b, 1, "x"), Some(1));
    assert_ne!(
        b.resolution_of(0).unwrap().symbol,
        b.resolution_of(1).unwrap().symbol
    );
}

/// `class Foo {} class Foo {}`: one conflict reported; one symbol survives as
/// the scope's live binding.
#[test]
fn duplicate_class_reports_one_conflict() {
    let p = script(vec![
        Item::ClassDecl(ClassNode { id: Some(ident(0, "Foo")) }),
        Item::ClassDecl(ClassNode { id: Some(ident(1, "Foo")) }),
    ]);
    let b = resolve_program(&p);
    assert_eq!(b.diagnostic_count(), 1);
    assert_eq!(b.symbol_count(), 1);
    assert_eq!(binding_of(&b, 0, "Foo"), Some(0));
    // the second identifier still resolves (to the surviving symbol)
    assert_eq!(b.resolution_of(1).unwrap().symbol, Some(0));
    // the conflict names the surviving symbol and the second span
    let d = b.diagnostic_at(0);
    assert_eq!(d.existing, 0);
    assert_eq!(d.span, Span { start: 10, end: 11 });
    assert_eq!(d.name, "Foo");
}

/// `function f(a, a) {}` in non-strict code with a simple list: no conflict;
/// two distinct symbols; the table resolves the name to the later one.
#[test]
fn duplicate_simple_parameters_permitted() {
    let params = simple_params(vec![
        Pattern::Id(ident(1, "a")),
        Pattern::Id(ident(2, "a")),
    ]);
    let p = script(vec![func(0, "f", params, vec![])]);
    let b = resolve_program(&p);
    assert_eq!(b.diagnostic_count(), 0);
    // f, first a, second a
    assert_eq!(b.symbol_count(), 3);
    let first = b.resolution_of(1).unwrap().symbol.unwrap();
    let second = b.resolution_of(2).unwrap().symbol.unwrap();
    assert_ne!(first, second);
    // the function scope's live binding for the name is the later identity
    assert_eq!(binding_of(&b, 1, "a"), Some(second));
}

/// `function f(a, a) {}` in strict code: a conflict is reported and the
/// second identifier merges into the first symbol.
#[test]
fn duplicate_parameters_rejected_in_strict_code() {
    let params = simple_params(vec![
        Pattern::Id(ident(1, "a")),
        Pattern::Id(ident(2, "a")),
    ]);
    let p = Program {
        typescript: false,
        strict: true,
        items: vec![func(0, "f", params, vec![])],
    };
    let b = resolve_program(&p);
    assert_eq!(b.diagnostic_count(), 1);
    assert_eq!(b.resolution_of(1).unwrap().symbol, b.resolution_of(2).unwrap().symbol);
}

/// `try {} catch (e) {}`: the parameter is bound directly in the catch
/// scope, function-scoped and catch-flagged, unlike an ordinary `let`.
#[test]
fn simple_catch_parameter_binds_in_catch_scope() {
    let p = script(vec![Item::Catch(CatchNode {
        param: Some(Pattern::Id(ident(0, "e"))),
        body: vec![],
    })]);
    let b = resolve_program(&p);
    assert_eq!(b.symbol_count(), 1);
    assert_eq!(b.scope_count(), 2);
    assert_eq!(b.symbol_scope(0), Some(1));
    assert_eq!(binding_of(&b, 1, "e"), Some(0));
    let flags = b.symbol_flags(0);
    assert!(flags.function_scoped);
    assert!(flags.catch_var);
    assert!(!flags.block_scoped);
}

/// `function f() { { { var y; } } }`: the symbol is owned by the function's
/// scope, not either block, and both blocks carry the name in their hoisting
/// ledgers; a later `let y` in such a block conflicts.
#[test]
fn var_hoists_through_nested_blocks() {
    let inner = block(vec![var_decl(VarKind::Var, 1, "y")]);
    let outer = block(vec![inner]);
    let p = script(vec![func(0, "f", simple_params(vec![]), vec![outer])]);
    let b = resolve_program(&p);
    assert_eq!(b.diagnostic_count(), 0);
    // scopes: 0 top, 1 function, 2 outer block, 3 inner block
    assert_eq!(b.scope_count(), 4);
    let y = b.resolution_of(1).unwrap().symbol.unwrap();
    assert_eq!(b.symbol_scope(y), Some(1));
    assert_eq!(binding_of(&b, 1, "y"), Some(y));
    assert_eq!(binding_of(&b, 2, "y"), None);
    assert_eq!(binding_of(&b, 3, "y"), None);
    assert_eq!(ledger_of(&b, 2, "y"), Some(y));
    assert_eq!(ledger_of(&b, 3, "y"), Some(y));

    // the same tree with `let y` after the var in the inner block conflicts
    let inner2 = block(vec![
        var_decl(VarKind::Var, 1, "y"),
        var_decl(VarKind::Let, 2, "y"),
    ]);
    let p2 = script(vec![func(0, "f", simple_params(vec![]), vec![block(vec![inner2])])]);
    let b2 = resolve_program(&p2);
    assert_eq!(b2.diagnostic_count(), 1);
}

fn graphs_equal(a: &Binder, b: &Binder) -> bool {
    if a.scope_count() != b.scope_count()
        || a.symbol_count() != b.symbol_count()
        || a.diagnostic_count() != b.diagnostic_count()
        || a.resolution_count() != b.resolution_count()
    {
        return false;
    }
    for s in 0..a.scope_count() {
        if a.scope_parent(s) != b.scope_parent(s) || a.scope_flags(s) != b.scope_flags(s) {
            return false;
        }
    }
    for s in 0..a.symbol_count() {
        if a.symbol_name(s) != b.symbol_name(s)
            || a.symbol_span(s) != b.symbol_span(s)
            || a.symbol_flags(s) != b.symbol_flags(s)
            || a.symbol_scope(s) != b.symbol_scope(s)
            || a.symbol_no_side_effects(s) != b.symbol_no_side_effects(s)
        {
            return false;
        }
    }
    for i in 0..a.resolution_count() {
        if a.resolution_at(i) != b.resolution_at(i) {
            return false;
        }
    }
    for i in 0..a.diagnostic_count() {
        let x = a.diagnostic_at(i);
        let y = b.diagnostic_at(i);
        if x.span != y.span || x.name != y.name || x.existing != y.existing {
            return false;
        }
    }
    true
}

/// Re-resolving the same unmodified tree from scratch yields a structurally
/// identical graph, identity values included.
#[test]
fn rebinding_from_scratch_is_idempotent() {
    let params = simple_params(vec![Pattern::Id(ident(10, "a")), Pattern::Id(ident(11, "a"))]);
    let p = script(vec![
        var_decl(VarKind::Var, 0, "x"),
        block(vec![
            var_decl(VarKind::Var, 1, "x"),
            var_decl(VarKind::Let, 2, "z"),
        ]),
        Item::ClassDecl(ClassNode { id: Some(ident(3, "Foo")) }),
        Item::ClassDecl(ClassNode { id: Some(ident(4, "Foo")) }),
        func(5, "f", params, vec![block(vec![var_decl(VarKind::Var, 12, "y")])]),
        Item::Catch(CatchNode { param: Some(Pattern::Id(ident(6, "e"))), body: vec![] }),
    ]);
    let first = resolve_program(&p);
    let second = resolve_program(&p);
    assert!(graphs_equal(&first, &second));
}

/// `{ var x; } { var x; }`: both declarations merge into one symbol at the
/// top scope, and each block's hoisting ledger records the name.
#[test]
fn var_across_sibling_blocks_merges() {
    let p = script(vec![
        block(vec![var_decl(VarKind::Var, 0, "x")]),
        block(vec![var_decl(VarKind::Var, 1, "x")]),
    ]);
    let b = resolve_program(&p);
    assert_eq!(b.symbol_count(), 1);
    assert_eq!(b.diagnostic_count(), 0);
    assert_eq!(b.symbol_scope(0), Some(0));
    assert_eq!(binding_of(&b, 0, "x"), Some(0));
    assert_eq!(ledger_of(&b, 1, "x"), Some(0));
    assert_eq!(ledger_of(&b, 2, "x"), Some(0));
    assert_eq!(b.resolution_of(0).unwrap().symbol, Some(0));
    assert_eq!(b.resolution_of(1).unwrap().symbol, Some(0));
}

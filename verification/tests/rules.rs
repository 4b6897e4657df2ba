//! Redeclaration legality across declaration kinds, and the conflict rule
//! itself.

use binder::ast::{
    AccessorKind, ClassNode, Declarator, EnumMemberNode, EnumNode, FunctionNode, Ident,
    ImportNode, InterfaceNode, Item, ParamList, ParamListKind, Pattern, Program, Span,
    TypeAliasNode, VarKind,
};
use binder::classify::{classify, DeclKind};
use binder::conflict::conflicts;
use binder::pass::resolve_program;

fn ident(node: usize, name: &str) -> Ident {
    Ident {
        node,
        span: Span { start: node as u32 * 10, end: node as u32 * 10 + 1 },
        name: name.to_string(),
    }
}

fn var_decl(kind: VarKind, node: usize, name: &str) -> Item {
    Item::Declarator(Declarator {
        kind,
        pattern: Pattern::Id(ident(node, name)),
        init_pure: false,
    })
}

fn script(items: Vec<Item>) -> Program {
    Program { typescript: false, strict: false, items }
}

fn ts(items: Vec<Item>) -> Program {
    Program { typescript: true, strict: false, items }
}

fn func_named(node: usize, name: &str) -> Item {
    Item::Func(FunctionNode {
        id: Some(ident(node, name)),
        in_if_arm: false,
        pure: false,
        accessor: AccessorKind::NotAccessor,
        strict: false,
        params: ParamList {
            kind: ParamListKind::Normal,
            simple: true,
            params: vec![],
            rest: None,
        },
        body: vec![],
    })
}

/// The centralized legality rule is symmetric in the two declarations' masks.
#[test]
fn conflict_rule_checks_both_masks() {
    let let_rule = classify(DeclKind::Lexical { constant: false });
    let var_rule = classify(DeclKind::HoistedVar);
    // let then var: the var's own mask admits block-scoped names, but the
    // let's stored mask rejects the var.
    assert!(conflicts(let_rule.includes, let_rule.excludes, var_rule.includes, var_rule.excludes));
    // var then let: the let's mask rejects function-scoped names.
    assert!(conflicts(var_rule.includes, var_rule.excludes, let_rule.includes, let_rule.excludes));
    // var then var merges silently.
    assert!(!conflicts(var_rule.includes, var_rule.excludes, var_rule.includes, var_rule.excludes));
}

/// `var x; let x` in one scope is a conflict, in either order.
#[test]
fn var_and_let_conflict_in_same_scope() {
    let b = resolve_program(&script(vec![
        var_decl(VarKind::Var, 0, "x"),
        var_decl(VarKind::Let, 1, "x"),
    ]));
    assert_eq!(b.diagnostic_count(), 1);
    let b2 = resolve_program(&script(vec![
        var_decl(VarKind::Let, 0, "x"),
        var_decl(VarKind::Var, 1, "x"),
    ]));
    assert_eq!(b2.diagnostic_count(), 1);
}

/// `let x; { var x; }`: legal only in the shadowing direction that keeps the
/// hoisted name away; hoisting the inner var to the top conflicts with the
/// outer let.
#[test]
fn hoisted_var_conflicts_with_outer_let() {
    let b = resolve_program(&script(vec![
        var_decl(VarKind::Let, 0, "x"),
        Item::Block(
            binder::flags::ScopeFlags::empty(),
            vec![var_decl(VarKind::Var, 1, "x")],
        ),
    ]));
    assert_eq!(b.diagnostic_count(), 1);
    // the reverse, `var x; { let x; }`, shadows legally
    let b2 = resolve_program(&script(vec![
        var_decl(VarKind::Var, 0, "x"),
        Item::Block(
            binder::flags::ScopeFlags::empty(),
            vec![var_decl(VarKind::Let, 1, "x")],
        ),
    ]));
    assert_eq!(b2.diagnostic_count(), 0);
    assert_eq!(b2.symbol_count(), 2);
}

/// `var x; function x() {}` merges outside typescript sources and conflicts
/// in them.
#[test]
fn function_merges_with_var_outside_typescript() {
    let items = vec![var_decl(VarKind::Var, 0, "x"), func_named(1, "x")];
    let plain = resolve_program(&script(items));
    assert_eq!(plain.diagnostic_count(), 0);
    // one merged symbol carrying both kinds (plus the function's own scope)
    let sym = plain.resolution_of(1).unwrap().symbol.unwrap();
    assert_eq!(plain.resolution_of(0).unwrap().symbol, Some(sym));
    let flags = plain.symbol_flags(sym);
    assert!(flags.function_scoped);
    assert!(flags.function_decl);

    let items2 = vec![var_decl(VarKind::Var, 0, "x"), func_named(1, "x")];
    let typescript = resolve_program(&ts(items2));
    assert_eq!(typescript.diagnostic_count(), 1);
}

/// `function x() {} var x` is the same merge in the other order.
#[test]
fn var_merges_with_function_outside_typescript() {
    let items = vec![func_named(0, "x"), var_decl(VarKind::Var, 1, "x")];
    let plain = resolve_program(&script(items));
    assert_eq!(plain.diagnostic_count(), 0);
    assert_eq!(
        plain.resolution_of(0).unwrap().symbol,
        plain.resolution_of(1).unwrap().symbol
    );
}

/// `const` declarators carry the immutable-binding flag.
#[test]
fn const_and_using_are_constant_block_scoped() {
    let b = resolve_program(&script(vec![
        var_decl(VarKind::Const, 0, "c"),
        var_decl(VarKind::Using, 1, "u"),
        var_decl(VarKind::AwaitUsing, 2, "w"),
        var_decl(VarKind::Let, 3, "l"),
    ]));
    assert_eq!(b.diagnostic_count(), 0);
    for sym in 0..3 {
        let f = b.symbol_flags(sym);
        assert!(f.block_scoped);
        assert!(f.const_var);
    }
    assert!(!b.symbol_flags(3).const_var);
}

/// Two interfaces of one name merge into one symbol; an interface merges
/// with a class; a type alias conflicts with an interface.
#[test]
fn interface_declaration_merging() {
    let b = resolve_program(&ts(vec![
        Item::Interface(InterfaceNode { id: ident(0, "I") }),
        Item::Interface(InterfaceNode { id: ident(1, "I") }),
    ]));
    assert_eq!(b.diagnostic_count(), 0);
    assert_eq!(b.symbol_count(), 1);
    let f = b.symbol_flags(0);
    assert!(f.interface_decl);

    let b2 = resolve_program(&ts(vec![
        Item::ClassDecl(ClassNode { id: Some(ident(0, "C")) }),
        Item::Interface(InterfaceNode { id: ident(1, "C") }),
    ]));
    assert_eq!(b2.diagnostic_count(), 0);
    assert_eq!(b2.symbol_count(), 1);

    let b3 = resolve_program(&ts(vec![
        Item::TypeAlias(TypeAliasNode { id: ident(0, "T") }),
        Item::Interface(InterfaceNode { id: ident(1, "T") }),
    ]));
    assert_eq!(b3.diagnostic_count(), 1);
}

/// Enums of one const-ness merge; mixed const-ness conflicts.
#[test]
fn enum_merging_requires_matching_constness() {
    let e = |node: usize, constant: bool| {
        Item::EnumDecl(EnumNode { id: ident(node, "E"), constant, members: vec![] })
    };
    let merged = resolve_program(&ts(vec![e(0, false), e(1, false)]));
    assert_eq!(merged.diagnostic_count(), 0);
    assert_eq!(merged.resolution_of(0).unwrap().symbol, merged.resolution_of(1).unwrap().symbol);

    let mixed = resolve_program(&ts(vec![e(0, false), e(1, true)]));
    assert_eq!(mixed.diagnostic_count(), 1);
}

/// Enum members are bound by name in the enum's own scope.
#[test]
fn enum_members_live_in_the_enum_scope() {
    let b = resolve_program(&ts(vec![Item::EnumDecl(EnumNode {
        id: ident(0, "E"),
        constant: false,
        members: vec![
            EnumMemberNode { span: Span { start: 100, end: 101 }, name: "A".to_string() },
            EnumMemberNode { span: Span { start: 102, end: 103 }, name: "B".to_string() },
        ],
    })]));
    assert_eq!(b.diagnostic_count(), 0);
    // the enum symbol plus two members; the members bind in scope 1
    assert_eq!(b.symbol_count(), 3);
    assert_eq!(b.scope_count(), 2);
    assert_eq!(b.get_binding(0, &"E".to_string()), Some(0));
    assert!(b.get_binding(1, &"A".to_string()).is_some());
    assert!(b.get_binding(1, &"B".to_string()).is_some());
    assert!(b.get_binding(0, &"A".to_string()).is_none());
    let member = b.get_binding(1, &"A".to_string()).unwrap();
    assert!(b.symbol_flags(member).enum_member);
}

/// A second import of one name conflicts; a type-only import coexists with a
/// `let` of the same name.
#[test]
fn import_redeclaration_rules() {
    let imp = |node: usize, name: &str, type_only: bool| {
        Item::Import(ImportNode { local: ident(node, name), type_self: type_only, type_decl: false })
    };
    let dup = resolve_program(&ts(vec![imp(0, "a", false), imp(1, "a", false)]));
    assert_eq!(dup.diagnostic_count(), 1);

    let mixed = resolve_program(&ts(vec![imp(0, "T", true), var_decl(VarKind::Let, 1, "T")]));
    assert_eq!(mixed.diagnostic_count(), 0);
    // the non-conflicting pair merges into one symbol carrying both kinds
    assert_eq!(mixed.symbol_count(), 1);
    assert!(mixed.symbol_flags(0).type_import);
    assert!(mixed.symbol_flags(0).block_scoped);

    let value = resolve_program(&ts(vec![imp(0, "a", false), var_decl(VarKind::Let, 1, "a")]));
    assert_eq!(value.diagnostic_count(), 1);
}

/// A type-only enclosing declaration marks the specifier as a type import.
#[test]
fn type_import_flag_from_declaration() {
    let b = resolve_program(&ts(vec![Item::Import(ImportNode {
        local: ident(0, "T"),
        type_self: false,
        type_decl: true,
    })]));
    let f = b.symbol_flags(0);
    assert!(f.type_import);
    assert!(!f.import_binding);
}

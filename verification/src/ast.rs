//! The input the pass reads: a tree of scope-bearing and declaration-bearing
//! nodes, carrying as plain values exactly the facts the binding rules
//! consult. The parser and the tree-walking driver that visit the real syntax
//! tree are external collaborators; they hand this tree over and read the
//! produced symbol and scope tables back.
//!
//! Identity is explicit: every binding identifier carries a node identity
//! chosen by the producer of the tree, and the pass records the resolved
//! symbol of each identifier in a side table keyed by that identity.

use vstd::prelude::*;

use crate::flags::ScopeFlags;

verus! {

/// A source span, as byte offsets.
#[derive(Clone, Copy, Debug, PartialEq, Eq, Structural)]
pub struct Span {
    pub start: u32,
    pub end: u32,
}

/// A binding identifier: a declared name together with the identity of its
/// node in the tree.
#[derive(Clone, Debug)]
pub struct Ident {
    /// The node identity, the key under which the resolved symbol is
    /// recorded.
    pub node: usize,
    /// The identifier's span.
    pub span: Span,
    /// The declared name.
    pub name: String,
}

/// A binding pattern, reduced to the names it binds in document order.
#[derive(Clone, Debug)]
pub enum Pattern {
    /// A plain identifier.
    Id(Ident),
    /// A destructuring pattern, as its bound names.
    Destructuring(Vec<Ident>),
}

/// The kind of a variable declarator.
#[derive(Clone, Copy, Debug, PartialEq, Eq, Structural)]
pub enum VarKind {
    Var,
    Let,
    Const,
    Using,
    AwaitUsing,
}

/// One variable declarator.
#[derive(Clone, Debug)]
pub struct Declarator {
    pub kind: VarKind,
    pub pattern: Pattern,
    /// Whether the initializer is a function or arrow expression marked free
    /// of side effects; such declarators put their symbol into the
    /// no-side-effects set when the pattern is a plain identifier.
    pub init_pure: bool,
}

/// The kind of a formal parameter list.
#[derive(Clone, Copy, Debug, PartialEq, Eq, Structural)]
pub enum ParamListKind {
    /// An ordinary function's parameter list.
    Normal,
    /// An arrow function's parameter list; duplicate names are forbidden.
    Arrow,
    /// A unique parameter list (methods, accessors); duplicates forbidden.
    Unique,
    /// A signature-only (ambient) parameter list; its names are deliberately
    /// left unbound and unresolved.
    Signature,
}

/// A formal parameter list.
#[derive(Clone, Debug)]
pub struct ParamList {
    pub kind: ParamListKind,
    /// Whether the list is simple: only plain identifiers, no defaults, no
    /// rest element, no destructuring.
    pub simple: bool,
    pub params: Vec<Pattern>,
    /// The rest element, if any.
    pub rest: Option<Pattern>,
}

/// The accessor kind of the object property a function expression sits in,
/// when it sits in one.
#[derive(Clone, Copy, Debug, PartialEq, Eq, Structural)]
pub enum AccessorKind {
    NotAccessor,
    Getter,
    Setter,
}

/// A function declaration or expression.
pub struct FunctionNode {
    /// The function's name, if it has one; bound in the enclosing scope.
    pub id: Option<Ident>,
    /// Whether the function declaration occupies an arm of an `if`/`else` in
    /// its source, the legacy pattern under which its symbol is created but
    /// left unattached to any scope. Computed once during lowering.
    pub in_if_arm: bool,
    /// Whether the function carries a no-side-effects pragma.
    pub pure: bool,
    /// The kind of the enclosing object property, known only once that
    /// property has been visited; tags the function's scope.
    pub accessor: AccessorKind,
    /// Whether the function's own code is strict (directive or module).
    pub strict: bool,
    pub params: ParamList,
    pub body: Vec<Item>,
}

/// A class declaration or expression; only its name binding is modelled, the
/// class body's own scope is a separate `Item::Block`.
#[derive(Clone, Debug)]
pub struct ClassNode {
    pub id: Option<Ident>,
}

/// A catch clause: its parameter and body share the clause's scope.
pub struct CatchNode {
    pub param: Option<Pattern>,
    pub body: Vec<Item>,
}

/// One import binding: a named, default or namespace specifier, or an
/// import-equals declaration.
#[derive(Clone, Debug)]
pub struct ImportNode {
    pub local: Ident,
    /// The specifier itself is marked type-only.
    pub type_self: bool,
    /// The enclosing import declaration is type-only.
    pub type_decl: bool,
}

/// A type alias declaration.
#[derive(Clone, Debug)]
pub struct TypeAliasNode {
    pub id: Ident,
}

/// An interface declaration.
#[derive(Clone, Debug)]
pub struct InterfaceNode {
    pub id: Ident,
}

/// One enum member; bound by name in the enum's own scope, with no
/// identifier node of its own.
#[derive(Clone, Debug)]
pub struct EnumMemberNode {
    pub span: Span,
    pub name: String,
}

/// An enum declaration; its members live in the enum's own scope.
#[derive(Clone, Debug)]
pub struct EnumNode {
    pub id: Ident,
    pub constant: bool,
    pub members: Vec<EnumMemberNode>,
}

/// A namespace or module declaration; its body is the namespace's own
/// scope, a hoisting boundary.
pub struct NamespaceNode {
    pub id: Ident,
    /// The special `global` block; its name is never bound.
    pub is_global: bool,
    /// Declared ambient (`declare namespace ...`).
    pub declare: bool,
    pub body: Vec<Item>,
}

/// A type parameter declaration.
#[derive(Clone, Debug)]
pub struct TypeParamNode {
    pub name: Ident,
    /// Whether the parameter sits inside an `infer` clause, which redirects
    /// it to the nearest enclosing conditional-type scope.
    pub in_infer: bool,
}

/// A node the pass visits, in document order.
pub enum Item {
    /// A variable declarator (`var`, `let`, `const`, `using`).
    Declarator(Declarator),
    /// A function declaration or expression, with its own scope.
    Func(FunctionNode),
    /// A class name binding.
    ClassDecl(ClassNode),
    /// A catch clause, with its own scope.
    Catch(CatchNode),
    /// Any other scope-bearing construct: a plain block, a class body, a
    /// class static block, a conditional-type scope.
    Block(ScopeFlags, Vec<Item>),
    /// An import binding.
    Import(ImportNode),
    /// A type alias name binding.
    TypeAlias(TypeAliasNode),
    /// An interface name binding.
    Interface(InterfaceNode),
    /// An enum declaration, with its own member scope.
    EnumDecl(EnumNode),
    /// A namespace declaration, with its own scope.
    Namespace(NamespaceNode),
    /// A type parameter name binding.
    TypeParam(TypeParamNode),
}

/// A whole program: the root scope's contents plus the source-level facts
/// the rules read.
pub struct Program {
    /// Whether the source is typescript; relaxes nothing, while plain
    /// sources let a function declaration merge with a same-name `var`.
    pub typescript: bool,
    /// Whether the top level is strict (a module, or a directive).
    pub strict: bool,
    pub items: Vec<Item>,
}

impl Pattern {
    /// The names a pattern binds, in document order.
    pub open spec fn spec_bound_names(self) -> Seq<Ident> {
        match self {
            Pattern::Id(id) => seq![id],
            Pattern::Destructuring(ids) => ids@,
        }
    }
}

} // verus!

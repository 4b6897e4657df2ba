//! The declaration classifier: one binding rule per declaration-node kind.
//!
//! Each rule is the triple consumed by the conflict/exclusion engine and the
//! hoisting resolver: the flags the declaration contributes, the exclusion
//! mask it checks and stores, and how a same-name, non-conflicting
//! redeclaration in the same scope is resolved (merge into the existing
//! symbol, or create a fresh symbol that overwrites the binding).

use vstd::prelude::*;

use crate::flags::SymbolFlags;

verus! {

/// The declaration-node kinds that bind a name, as a closed tagged union.
/// Context a rule depends on (strictness, parameter-list shape, typescript
/// sources) is carried in the variant.
#[derive(Clone, Copy, Debug, PartialEq, Eq, Structural)]
pub enum DeclKind {
    /// A `let`, `const` or `using` declarator; `constant` is set for `const`
    /// and both `using` forms.
    Lexical { constant: bool },
    /// A `var` declarator; bound through the hoisting resolver.
    HoistedVar,
    /// A class declaration name.
    ClassName,
    /// A function declaration name; `typescript` relaxes nothing, while
    /// plain-source functions may merge with a same-name `var`.
    FunctionName { typescript: bool },
    /// A formal parameter. Duplicate names are forbidden in arrow or
    /// otherwise-unique parameter lists, in strict mode, and in non-simple
    /// lists (defaults, rest or destructuring present).
    Parameter { arrow_or_unique: bool, strict: bool, simple: bool },
    /// A rest parameter; duplicate names are always forbidden.
    RestParameter,
    /// A catch parameter that is a plain identifier; shadow-declared into the
    /// catch scope, bypassing the redeclaration search.
    CatchSimple,
    /// One name bound by a destructuring catch parameter.
    CatchPatternName,
    /// The local name of an import specifier; `type_only` when the specifier
    /// or its enclosing import declaration is type-only.
    ImportName { type_only: bool },
    /// A type alias name.
    TypeAliasName,
    /// An interface name; interfaces merge with interfaces and classes.
    InterfaceName,
    /// An enum name; const-ness must match for two enums to merge.
    EnumName { constant: bool },
    /// An enum member name, bound in the enum's own scope.
    EnumMemberName,
    /// A namespace or module name; `ambient` for `declare` contexts.
    NamespaceName { ambient: bool },
    /// A type parameter name.
    TypeParameterName,
}

/// How a same-name, non-conflicting declaration in the same scope is
/// resolved.
#[derive(Clone, Copy, Debug, PartialEq, Eq, Structural)]
pub enum DuplicatePolicy {
    /// Reuse the existing symbol and union the new flags into it.
    Merge,
    /// Create a fresh symbol and make it the scope's live binding for the
    /// name; the earlier symbol stays reachable only through its own
    /// identifier node. Used for permitted duplicate parameters.
    Overwrite,
}

/// What the classifier computes for a declaration kind.
#[derive(Clone, Copy, Debug)]
pub struct BindingRule {
    /// The flags the declaration contributes to its symbol.
    pub includes: SymbolFlags,
    /// The exclusion mask checked against an existing symbol and stored on
    /// the new symbol.
    pub excludes: SymbolFlags,
    /// Resolution of a permitted same-scope duplicate.
    pub duplicates: DuplicatePolicy,
}

/// Variable flags: function-scoped or block-scoped.
pub open spec fn variable_mask() -> SymbolFlags {
    SymbolFlags {
        block_scoped: true,
        function_scoped: true,
        ..SymbolFlags::spec_none()
    }
}

/// Flags whose declarations produce a runtime value.
pub open spec fn value_mask() -> SymbolFlags {
    SymbolFlags {
        block_scoped: true,
        function_scoped: true,
        class_decl: true,
        function_decl: true,
        import_binding: true,
        regular_enum: true,
        const_enum: true,
        enum_member: true,
        ..SymbolFlags::spec_none()
    }
}

/// Flags whose declarations produce a type.
pub open spec fn type_mask() -> SymbolFlags {
    SymbolFlags {
        class_decl: true,
        interface_decl: true,
        regular_enum: true,
        const_enum: true,
        enum_member: true,
        type_parameter: true,
        type_alias: true,
        type_import: true,
        ..SymbolFlags::spec_none()
    }
}

/// The exclusion mask of a function-scoped variable. A `var` coexists with
/// another `var`, a parameter and a function declaration, and conflicts with
/// every other value declaration of the same name.
pub open spec fn function_scoped_excludes() -> SymbolFlags {
    value_mask().spec_minus(
        SymbolFlags {
            function_scoped: true,
            function_decl: true,
            ..SymbolFlags::spec_none()
        },
    )
}

/// The exclusion mask of a block-scoped variable: every value declaration.
pub open spec fn block_scoped_excludes() -> SymbolFlags {
    value_mask()
}

/// The exclusion mask of a class name. Interfaces merge with classes, and a
/// later function declaration is rejected through its own mask.
pub open spec fn class_excludes() -> SymbolFlags {
    value_mask().spec_union(type_mask()).spec_minus(
        SymbolFlags {
            interface_decl: true,
            function_decl: true,
            ..SymbolFlags::spec_none()
        },
    )
}

/// The exclusion mask of a function declaration in typescript sources.
pub open spec fn function_excludes() -> SymbolFlags {
    value_mask().spec_minus(
        SymbolFlags { function_decl: true, ..SymbolFlags::spec_none() },
    )
}

/// The exclusion mask of an import binding: another import of either kind.
pub open spec fn import_binding_excludes() -> SymbolFlags {
    SymbolFlags {
        import_binding: true,
        type_import: true,
        ..SymbolFlags::spec_none()
    }
}

/// The exclusion mask of a type alias: every type declaration.
pub open spec fn type_alias_excludes() -> SymbolFlags {
    type_mask()
}

/// The exclusion mask of an interface: every type declaration except
/// interfaces and classes, with which interfaces merge.
pub open spec fn interface_excludes() -> SymbolFlags {
    type_mask().spec_minus(
        SymbolFlags {
            interface_decl: true,
            class_decl: true,
            ..SymbolFlags::spec_none()
        },
    )
}

/// The exclusion mask of a non-const enum: enums merge only with enums of the
/// same const-ness.
pub open spec fn regular_enum_excludes() -> SymbolFlags {
    value_mask().spec_union(type_mask()).spec_minus(
        SymbolFlags { regular_enum: true, ..SymbolFlags::spec_none() },
    )
}

/// The exclusion mask of a const enum.
pub open spec fn const_enum_excludes() -> SymbolFlags {
    value_mask().spec_union(type_mask()).spec_minus(
        SymbolFlags { const_enum: true, ..SymbolFlags::spec_none() },
    )
}

/// The exclusion mask of an enum member.
pub open spec fn enum_member_excludes() -> SymbolFlags {
    value_mask().spec_union(type_mask()).spec_minus(
        SymbolFlags { enum_member: true, ..SymbolFlags::spec_none() },
    )
}

/// The exclusion mask of a type parameter.
pub open spec fn type_parameter_excludes() -> SymbolFlags {
    type_mask().spec_minus(
        SymbolFlags { type_parameter: true, ..SymbolFlags::spec_none() },
    )
}

/// The binding rule of each declaration kind.
pub open spec fn spec_classify(kind: DeclKind) -> BindingRule {
    match kind {
        DeclKind::Lexical { constant } => BindingRule {
            includes: SymbolFlags {
                block_scoped: true,
                const_var: constant,
                ..SymbolFlags::spec_none()
            },
            excludes: block_scoped_excludes(),
            duplicates: DuplicatePolicy::Merge,
        },
        DeclKind::HoistedVar => BindingRule {
            includes: SymbolFlags { function_scoped: true, ..SymbolFlags::spec_none() },
            excludes: function_scoped_excludes(),
            duplicates: DuplicatePolicy::Merge,
        },
        DeclKind::ClassName => BindingRule {
            includes: SymbolFlags { class_decl: true, ..SymbolFlags::spec_none() },
            excludes: class_excludes(),
            duplicates: DuplicatePolicy::Merge,
        },
        DeclKind::FunctionName { typescript } => BindingRule {
            includes: SymbolFlags { function_decl: true, ..SymbolFlags::spec_none() },
            excludes: if typescript {
                function_excludes()
            } else {
                // `var x; function x() {}` is valid outside typescript
                // sources, which never care about non-strict code.
                function_excludes().spec_minus(
                    SymbolFlags { function_scoped: true, ..SymbolFlags::spec_none() },
                )
            },
            duplicates: DuplicatePolicy::Merge,
        },
        DeclKind::Parameter { arrow_or_unique, strict, simple } => BindingRule {
            includes: SymbolFlags { function_scoped: true, ..SymbolFlags::spec_none() },
            excludes: if arrow_or_unique || strict || !simple {
                function_scoped_excludes().spec_union(
                    SymbolFlags { function_scoped: true, ..SymbolFlags::spec_none() },
                )
            } else {
                function_scoped_excludes()
            },
            duplicates: DuplicatePolicy::Overwrite,
        },
        DeclKind::RestParameter => BindingRule {
            includes: SymbolFlags { function_scoped: true, ..SymbolFlags::spec_none() },
            excludes: function_scoped_excludes().spec_union(
                SymbolFlags { function_scoped: true, ..SymbolFlags::spec_none() },
            ),
            duplicates: DuplicatePolicy::Overwrite,
        },
        DeclKind::CatchSimple => BindingRule {
            includes: SymbolFlags {
                function_scoped: true,
                catch_var: true,
                ..SymbolFlags::spec_none()
            },
            excludes: SymbolFlags::spec_none(),
            duplicates: DuplicatePolicy::Merge,
        },
        DeclKind::CatchPatternName => BindingRule {
            includes: SymbolFlags {
                block_scoped: true,
                catch_var: true,
                ..SymbolFlags::spec_none()
            },
            excludes: block_scoped_excludes(),
            duplicates: DuplicatePolicy::Merge,
        },
        DeclKind::ImportName { type_only } => BindingRule {
            includes: if type_only {
                SymbolFlags { type_import: true, ..SymbolFlags::spec_none() }
            } else {
                SymbolFlags { import_binding: true, ..SymbolFlags::spec_none() }
            },
            excludes: import_binding_excludes(),
            duplicates: DuplicatePolicy::Merge,
        },
        DeclKind::TypeAliasName => BindingRule {
            includes: SymbolFlags { type_alias: true, ..SymbolFlags::spec_none() },
            excludes: type_alias_excludes(),
            duplicates: DuplicatePolicy::Merge,
        },
        DeclKind::InterfaceName => BindingRule {
            includes: SymbolFlags { interface_decl: true, ..SymbolFlags::spec_none() },
            excludes: interface_excludes(),
            duplicates: DuplicatePolicy::Merge,
        },
        DeclKind::EnumName { constant } => BindingRule {
            includes: if constant {
                SymbolFlags { const_enum: true, ..SymbolFlags::spec_none() }
            } else {
                SymbolFlags { regular_enum: true, ..SymbolFlags::spec_none() }
            },
            excludes: if constant {
                const_enum_excludes()
            } else {
                regular_enum_excludes()
            },
            duplicates: DuplicatePolicy::Merge,
        },
        DeclKind::EnumMemberName => BindingRule {
            includes: SymbolFlags { enum_member: true, ..SymbolFlags::spec_none() },
            excludes: enum_member_excludes(),
            duplicates: DuplicatePolicy::Merge,
        },
        DeclKind::NamespaceName { ambient } => BindingRule {
            includes: SymbolFlags {
                namespace_module: true,
                ambient: ambient,
                ..SymbolFlags::spec_none()
            },
            excludes: SymbolFlags::spec_none(),
            duplicates: DuplicatePolicy::Merge,
        },
        DeclKind::TypeParameterName => BindingRule {
            includes: SymbolFlags { type_parameter: true, ..SymbolFlags::spec_none() },
            excludes: type_parameter_excludes(),
            duplicates: DuplicatePolicy::Merge,
        },
    }
}

/// Computes the binding rule of a declaration kind; see [`spec_classify`].
pub fn classify(kind: DeclKind) -> (r: BindingRule)
    ensures
        r == spec_classify(kind),
{
    proof {
        reveal(SymbolFlags::spec_union);
        reveal(SymbolFlags::spec_minus);
    }
    let none = SymbolFlags::none();
    match kind {
        DeclKind::Lexical { constant } => BindingRule {
            includes: SymbolFlags { block_scoped: true, const_var: constant, ..none },
            excludes: SymbolFlags {
                block_scoped: true,
                function_scoped: true,
                class_decl: true,
                function_decl: true,
                import_binding: true,
                regular_enum: true,
                const_enum: true,
                enum_member: true,
                ..none
            },
            duplicates: DuplicatePolicy::Merge,
        },
        DeclKind::HoistedVar => BindingRule {
            includes: SymbolFlags { function_scoped: true, ..none },
            excludes: SymbolFlags {
                block_scoped: true,
                class_decl: true,
                import_binding: true,
                regular_enum: true,
                const_enum: true,
                enum_member: true,
                ..none
            },
            duplicates: DuplicatePolicy::Merge,
        },
        DeclKind::ClassName => BindingRule {
            includes: SymbolFlags { class_decl: true, ..none },
            excludes: SymbolFlags {
                block_scoped: true,
                function_scoped: true,
                class_decl: true,
                import_binding: true,
                regular_enum: true,
                const_enum: true,
                enum_member: true,
                type_parameter: true,
                type_alias: true,
                type_import: true,
                ..none
            },
            duplicates: DuplicatePolicy::Merge,
        },
        DeclKind::FunctionName { typescript } => BindingRule {
            includes: SymbolFlags { function_decl: true, ..none },
            excludes: SymbolFlags {
                block_scoped: true,
                function_scoped: typescript,
                class_decl: true,
                import_binding: true,
                regular_enum: true,
                const_enum: true,
                enum_member: true,
                ..none
            },
            duplicates: DuplicatePolicy::Merge,
        },
        DeclKind::Parameter { arrow_or_unique, strict, simple } => BindingRule {
            includes: SymbolFlags { function_scoped: true, ..none },
            excludes: SymbolFlags {
                block_scoped: true,
                function_scoped: arrow_or_unique || strict || !simple,
                class_decl: true,
                import_binding: true,
                regular_enum: true,
                const_enum: true,
                enum_member: true,
                ..none
            },
            duplicates: DuplicatePolicy::Overwrite,
        },
        DeclKind::RestParameter => BindingRule {
            includes: SymbolFlags { function_scoped: true, ..none },
            excludes: SymbolFlags {
                block_scoped: true,
                function_scoped: true,
                class_decl: true,
                import_binding: true,
                regular_enum: true,
                const_enum: true,
                enum_member: true,
                ..none
            },
            duplicates: DuplicatePolicy::Overwrite,
        },
        DeclKind::CatchSimple => BindingRule {
            includes: SymbolFlags { function_scoped: true, catch_var: true, ..none },
            excludes: none,
            duplicates: DuplicatePolicy::Merge,
        },
        DeclKind::CatchPatternName => BindingRule {
            includes: SymbolFlags { block_scoped: true, catch_var: true, ..none },
            excludes: SymbolFlags {
                block_scoped: true,
                function_scoped: true,
                class_decl: true,
                function_decl: true,
                import_binding: true,
                regular_enum: true,
                const_enum: true,
                enum_member: true,
                ..none
            },
            duplicates: DuplicatePolicy::Merge,
        },
        DeclKind::ImportName { type_only } => BindingRule {
            includes: SymbolFlags {
                import_binding: !type_only,
                type_import: type_only,
                ..none
            },
            excludes: SymbolFlags { import_binding: true, type_import: true, ..none },
            duplicates: DuplicatePolicy::Merge,
        },
        DeclKind::TypeAliasName => BindingRule {
            includes: SymbolFlags { type_alias: true, ..none },
            excludes: SymbolFlags {
                class_decl: true,
                interface_decl: true,
                regular_enum: true,
                const_enum: true,
                enum_member: true,
                type_parameter: true,
                type_alias: true,
                type_import: true,
                ..none
            },
            duplicates: DuplicatePolicy::Merge,
        },
        DeclKind::InterfaceName => BindingRule {
            includes: SymbolFlags { interface_decl: true, ..none },
            excludes: SymbolFlags {
                regular_enum: true,
                const_enum: true,
                enum_member: true,
                type_parameter: true,
                type_alias: true,
                type_import: true,
                ..none
            },
            duplicates: DuplicatePolicy::Merge,
        },
        DeclKind::EnumName { constant } => BindingRule {
            includes: SymbolFlags {
                regular_enum: !constant,
                const_enum: constant,
                ..none
            },
            excludes: SymbolFlags {
                block_scoped: true,
                function_scoped: true,
                class_decl: true,
                function_decl: true,
                import_binding: true,
                interface_decl: true,
                regular_enum: constant,
                const_enum: !constant,
                enum_member: true,
                type_parameter: true,
                type_alias: true,
                type_import: true,
                ..none
            },
            duplicates: DuplicatePolicy::Merge,
        },
        DeclKind::EnumMemberName => BindingRule {
            includes: SymbolFlags { enum_member: true, ..none },
            excludes: SymbolFlags {
                block_scoped: true,
                function_scoped: true,
                class_decl: true,
                function_decl: true,
                import_binding: true,
                interface_decl: true,
                regular_enum: true,
                const_enum: true,
                type_parameter: true,
                type_alias: true,
                type_import: true,
                ..none
            },
            duplicates: DuplicatePolicy::Merge,
        },
        DeclKind::NamespaceName { ambient } => BindingRule {
            includes: SymbolFlags { namespace_module: true, ambient: ambient, ..none },
            excludes: none,
            duplicates: DuplicatePolicy::Merge,
        },
        DeclKind::TypeParameterName => BindingRule {
            includes: SymbolFlags { type_parameter: true, ..none },
            excludes: SymbolFlags {
                class_decl: true,
                interface_decl: true,
                regular_enum: true,
                const_enum: true,
                enum_member: true,
                type_alias: true,
                type_import: true,
                ..none
            },
            duplicates: DuplicatePolicy::Merge,
        },
    }
}

} // verus!

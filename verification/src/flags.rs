//! Flag sets for symbols and scopes.
//!
//! A symbol's flag set records its declaration kind(s) and modifiers; a
//! scope's flag set records what kind of lexical region it is. Both are kept
//! as explicit set-of-flags types whose members are plain booleans, so that
//! union and intersection are ordinary propositional facts. The redeclaration
//! legality rule over symbol flag sets lives in `conflict`.

use vstd::prelude::*;

verus! {

/// The declaration-kind and modifier flags a symbol can carry. Flags are not
/// exclusive: repeated declarations that merge into one symbol union their
/// flags (an interface merged with an interface, a `var` merged with a
/// `function`).
#[derive(Clone, Copy, Debug, PartialEq, Eq, Structural)]
pub struct SymbolFlags {
    /// `let`, `const`, `using`: block-scoped variable.
    pub block_scoped: bool,
    /// `const` and `using` declarations: immutable binding.
    pub const_var: bool,
    /// `var`, parameters, simple catch parameters: function-scoped variable.
    pub function_scoped: bool,
    /// A catch clause parameter.
    pub catch_var: bool,
    /// A class declaration name.
    pub class_decl: bool,
    /// A function declaration name.
    pub function_decl: bool,
    /// A value import binding.
    pub import_binding: bool,
    /// A type-only import binding.
    pub type_import: bool,
    /// A type alias name.
    pub type_alias: bool,
    /// An interface name.
    pub interface_decl: bool,
    /// A non-const enum name.
    pub regular_enum: bool,
    /// A const enum name.
    pub const_enum: bool,
    /// An enum member name.
    pub enum_member: bool,
    /// A namespace or module name.
    pub namespace_module: bool,
    /// A type parameter name.
    pub type_parameter: bool,
    /// Declared in an ambient (`declare`) context.
    pub ambient: bool,
}

impl SymbolFlags {
    /// The empty flag set.
    pub open spec fn spec_none() -> SymbolFlags {
        SymbolFlags {
            block_scoped: false,
            const_var: false,
            function_scoped: false,
            catch_var: false,
            class_decl: false,
            function_decl: false,
            import_binding: false,
            type_import: false,
            type_alias: false,
            interface_decl: false,
            regular_enum: false,
            const_enum: false,
            enum_member: false,
            namespace_module: false,
            type_parameter: false,
            ambient: false,
        }
    }

    /// Field-wise union of two flag sets.
    #[verifier::opaque]
    pub open spec fn spec_union(self, o: SymbolFlags) -> SymbolFlags {
        SymbolFlags {
            block_scoped: self.block_scoped || o.block_scoped,
            const_var: self.const_var || o.const_var,
            function_scoped: self.function_scoped || o.function_scoped,
            catch_var: self.catch_var || o.catch_var,
            class_decl: self.class_decl || o.class_decl,
            function_decl: self.function_decl || o.function_decl,
            import_binding: self.import_binding || o.import_binding,
            type_import: self.type_import || o.type_import,
            type_alias: self.type_alias || o.type_alias,
            interface_decl: self.interface_decl || o.interface_decl,
            regular_enum: self.regular_enum || o.regular_enum,
            const_enum: self.const_enum || o.const_enum,
            enum_member: self.enum_member || o.enum_member,
            namespace_module: self.namespace_module || o.namespace_module,
            type_parameter: self.type_parameter || o.type_parameter,
            ambient: self.ambient || o.ambient,
        }
    }

    /// Field-wise difference: the flags of `self` that are not in `o`.
    #[verifier::opaque]
    pub open spec fn spec_minus(self, o: SymbolFlags) -> SymbolFlags {
        SymbolFlags {
            block_scoped: self.block_scoped && !o.block_scoped,
            const_var: self.const_var && !o.const_var,
            function_scoped: self.function_scoped && !o.function_scoped,
            catch_var: self.catch_var && !o.catch_var,
            class_decl: self.class_decl && !o.class_decl,
            function_decl: self.function_decl && !o.function_decl,
            import_binding: self.import_binding && !o.import_binding,
            type_import: self.type_import && !o.type_import,
            type_alias: self.type_alias && !o.type_alias,
            interface_decl: self.interface_decl && !o.interface_decl,
            regular_enum: self.regular_enum && !o.regular_enum,
            const_enum: self.const_enum && !o.const_enum,
            enum_member: self.enum_member && !o.enum_member,
            namespace_module: self.namespace_module && !o.namespace_module,
            type_parameter: self.type_parameter && !o.type_parameter,
            ambient: self.ambient && !o.ambient,
        }
    }

    /// Do two flag sets share at least one flag?
    #[verifier::opaque]
    pub open spec fn spec_intersects(self, o: SymbolFlags) -> bool {
        ||| (self.block_scoped && o.block_scoped)
        ||| (self.const_var && o.const_var)
        ||| (self.function_scoped && o.function_scoped)
        ||| (self.catch_var && o.catch_var)
        ||| (self.class_decl && o.class_decl)
        ||| (self.function_decl && o.function_decl)
        ||| (self.import_binding && o.import_binding)
        ||| (self.type_import && o.type_import)
        ||| (self.type_alias && o.type_alias)
        ||| (self.interface_decl && o.interface_decl)
        ||| (self.regular_enum && o.regular_enum)
        ||| (self.const_enum && o.const_enum)
        ||| (self.enum_member && o.enum_member)
        ||| (self.namespace_module && o.namespace_module)
        ||| (self.type_parameter && o.type_parameter)
        ||| (self.ambient && o.ambient)
    }

    /// The empty flag set.
    pub fn none() -> (r: SymbolFlags)
        ensures
            r == SymbolFlags::spec_none(),
    {
        SymbolFlags {
            block_scoped: false,
            const_var: false,
            function_scoped: false,
            catch_var: false,
            class_decl: false,
            function_decl: false,
            import_binding: false,
            type_import: false,
            type_alias: false,
            interface_decl: false,
            regular_enum: false,
            const_enum: false,
            enum_member: false,
            namespace_module: false,
            type_parameter: false,
            ambient: false,
        }
    }

    /// Field-wise union of two flag sets.
    pub fn union(self, o: SymbolFlags) -> (r: SymbolFlags)
        ensures
            r == self.spec_union(o),
    {
        proof {
            reveal(SymbolFlags::spec_union);
        }
        SymbolFlags {
            block_scoped: self.block_scoped || o.block_scoped,
            const_var: self.const_var || o.const_var,
            function_scoped: self.function_scoped || o.function_scoped,
            catch_var: self.catch_var || o.catch_var,
            class_decl: self.class_decl || o.class_decl,
            function_decl: self.function_decl || o.function_decl,
            import_binding: self.import_binding || o.import_binding,
            type_import: self.type_import || o.type_import,
            type_alias: self.type_alias || o.type_alias,
            interface_decl: self.interface_decl || o.interface_decl,
            regular_enum: self.regular_enum || o.regular_enum,
            const_enum: self.const_enum || o.const_enum,
            enum_member: self.enum_member || o.enum_member,
            namespace_module: self.namespace_module || o.namespace_module,
            type_parameter: self.type_parameter || o.type_parameter,
            ambient: self.ambient || o.ambient,
        }
    }

    /// Do two flag sets share at least one flag?
    pub fn intersects(self, o: SymbolFlags) -> (r: bool)
        ensures
            r == self.spec_intersects(o),
    {
        proof {
            reveal(SymbolFlags::spec_intersects);
        }
        (self.block_scoped && o.block_scoped) || (self.const_var && o.const_var) || (
        self.function_scoped && o.function_scoped) || (self.catch_var && o.catch_var) || (
        self.class_decl && o.class_decl) || (self.function_decl && o.function_decl) || (
        self.import_binding && o.import_binding) || (self.type_import && o.type_import) || (
        self.type_alias && o.type_alias) || (self.interface_decl && o.interface_decl) || (
        self.regular_enum && o.regular_enum) || (self.const_enum && o.const_enum) || (
        self.enum_member && o.enum_member) || (self.namespace_module && o.namespace_module) || (
        self.type_parameter && o.type_parameter) || (self.ambient && o.ambient)
    }
}

/// The flag set of a lexical scope.
#[derive(Clone, Copy, Debug, PartialEq, Eq, Structural)]
pub struct ScopeFlags {
    /// The top scope of a script or module. Always set on the root scope.
    pub top: bool,
    /// A function's scope (parameters and body).
    pub function: bool,
    /// A class static initialization block.
    pub class_static_block: bool,
    /// The block of a namespace or module declaration.
    pub ts_module_block: bool,
    /// Strict mode code. Inherited by every child scope.
    pub strict_mode: bool,
    /// The scope of a getter function.
    pub get_accessor: bool,
    /// The scope of a setter function.
    pub set_accessor: bool,
    /// The scope of a conditional type, the redirection target for type
    /// parameters bound inside an `infer` clause.
    pub ts_conditional: bool,
}

impl ScopeFlags {
    /// The empty flag set: a plain block scope.
    pub open spec fn spec_empty() -> ScopeFlags {
        ScopeFlags {
            top: false,
            function: false,
            class_static_block: false,
            ts_module_block: false,
            strict_mode: false,
            get_accessor: false,
            set_accessor: false,
            ts_conditional: false,
        }
    }

    /// Is this scope a hoisting boundary, the scope at which `var`-style
    /// declarations are anchored regardless of nested block depth?
    pub open spec fn spec_is_var_boundary(self) -> bool {
        self.top || self.function || self.class_static_block || self.ts_module_block
    }

    /// The empty flag set: a plain block scope.
    pub fn empty() -> (r: ScopeFlags)
        ensures
            r == ScopeFlags::spec_empty(),
    {
        ScopeFlags {
            top: false,
            function: false,
            class_static_block: false,
            ts_module_block: false,
            strict_mode: false,
            get_accessor: false,
            set_accessor: false,
            ts_conditional: false,
        }
    }

    /// Is this scope a hoisting boundary?
    pub fn is_var_boundary(self) -> (r: bool)
        ensures
            r == self.spec_is_var_boundary(),
    {
        self.top || self.function || self.class_static_block || self.ts_module_block
    }
}

} // verus!

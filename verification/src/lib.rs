//! Name resolution for a parsed syntax tree: every declared identifier is
//! assigned a unique symbol, each symbol is attached to the lexical scope that
//! owns it, and the language's declaration-conflict and variable-hoisting
//! rules are enforced.
//!
//! The tree-walking driver that produced the tree is an external collaborator:
//! it is modelled by the [`ast`] module, which carries exactly the facts the
//! binding rules read (declaration kinds, bound names, scope flags, parameter
//! list shape, strictness). The pass itself, its scope tree, symbol table,
//! conflict rule and hoisting resolver are verified here: every operation's
//! contract says it computes exactly its mathematical model, and [`laws`]
//! proves the pass's global guarantees from those models.

pub mod ast;
pub mod binder;
pub mod classify;
pub mod conflict;
pub mod flags;
pub mod laws;
pub mod pass;
pub mod state;

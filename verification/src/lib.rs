//! Rune: the front and middle of a small ahead-of-time compiler.

pub mod aot;
pub mod ast;
pub mod checker;
pub mod code;
pub mod code_laws;
pub mod codegen;
pub mod facts;
pub mod grammar;
pub mod grammar_laws;
pub mod graph;
pub mod hir;
pub mod hir_walk;
pub mod hir_walk_laws;
pub mod instance_laws;
pub mod lexer;
pub mod lexer_laws;
pub mod lower;
pub mod lowering_laws;
pub mod machine;
pub mod machine_laws;
pub mod mangling_laws;
pub mod modules;
pub mod modules_laws;
pub mod monomorphize;
pub mod monomorphize_laws;
pub mod names;
pub mod names_laws;
pub mod operator_laws;
pub mod parse_exprs;
pub mod parse_items;
pub mod parse_patterns;
pub mod parse_stmts;
pub mod parse_types;
pub mod parser;
pub mod resolver;
pub mod resolver_laws;
pub mod rules;
pub mod running_laws;
pub mod runtime;
pub mod search;
pub mod simulation_laws;
pub mod soundness_laws;
pub mod spelling_laws;
pub mod statement_laws;
pub mod table;
pub mod text;
pub mod token;
pub mod tree;
pub mod ty;
pub mod typing;
pub mod typing_laws;

pub use crate::aot::{LinkError, build_object};
pub use crate::ast::{
    AssocTypeBinding, AssocTypeDecl, BinOp, Block, ConstDecl, EnumDecl, Expr, Field, FieldInit, FnDecl,
    GenericParam, Ident, ImplBlock, Item, LetStmt, Lit, MatchArm, ModDecl, Module, Param, Path, Pattern, Stmt,
    StructDecl, TraitDecl, TraitMethodSig, Type, UnOp, UseDecl, Variant, VariantFields, Visibility,
};
pub use crate::checker::{CheckResults, Checker, TypeError};
pub use crate::codegen::{Codegen, OptLevel};
pub use crate::code::CodegenError;
pub use crate::hir::{HirFn, HirItem, HirModule};
pub use crate::lexer::{LexError, Lexer};
pub use crate::lower::Lowerer;
pub use crate::modules::{Expansion, ModuleError, SourceMap, expand_modules};
pub use crate::monomorphize::monomorphize_module;
pub use crate::parser::{ParseError, Parser};
pub use crate::resolver::{ResolveError, Resolutions, Resolver, Symbol, SymbolKind};
pub use crate::token::{Span, Token, TokenKind};
pub use crate::ty::{FloatTy, IntTy, SymbolId, Ty};

use vstd::prelude::*;

use crate::text::cat3;

verus! {

/// The standard prelude, a `mod std { .. }` in the language itself.
pub const PRELUDE: &'static str = "mod std {
    pub enum Option<T> {
        Some(T),
        None,
    }

    pub enum Result<T, E> {
        Ok(T),
        Err(E),
    }

    pub trait Iterator {
        type Item;
        fn next(self: Self) -> Option<Self::Item>;
    }

    pub struct VecIter<T> {
        pub vec: Vec<T>,
        pub idx: i64,
    }

    pub fn min(a: i64, b: i64) -> i64 {
        if a < b { a } else { b }
    }

    pub fn max(a: i64, b: i64) -> i64 {
        if a > b { a } else { b }
    }

    pub fn abs(a: i64) -> i64 {
        if a < 0 { -a } else { a }
    }
}";

/// A source with the prelude before it. Offsets into the user's source are
/// shifted by the prelude's length and one.
pub fn with_prelude(user_src: &str) -> (r: String)
    ensures
        r@ == PRELUDE@ + "\n"@ + user_src@,
{
    cat3(PRELUDE, "\n", user_src)
}

} // verus!

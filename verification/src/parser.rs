//! Recursive-descent and precedence-climbing parser.
//!
//! Errors are accumulated: after an item that cannot be parsed the parser goes
//! on at the next token with which an item may begin.

use vstd::prelude::*;

use crate::ast::{
    AssocTypeBinding, AssocTypeDecl, BinOp, Block, ConstDecl, EnumDecl, Expr, Field, FieldInit,
    FnDecl, GenericParam, Ident, ImplBlock, Item, LetStmt, Lit, MatchArm, ModDecl, Module, Param,
    Path, Pattern, Stmt, StructDecl, TraitDecl, TraitMethodSig, Type, UseDecl, Variant,
    Visibility,
};
use crate::grammar::{
    Fail, InfixKind, InfixOp, Input, NESTING_LIMIT, applied_infix, bumped, described,
    ends_in_block, expected_here, infix_op, input_of, input_wf, kind_name, member_fns,
    member_types, module_of, nested_too_deeply, next_item, past_visibility, read_generic_close,
    read_items, read_name, read_token, span_from_to, starts_item, tok_at, tok_is, tok_span,
    tokens_left, visibility_at, with_generics, wrapped_next,
};
use crate::lexer::{TokenV, token_view, token_views};
use crate::text::{cat3, cat4, cat6, dec, dec_int, number, push_dec_int, same_text};
use crate::token::{Span, Token, TokenKind, TokenKindV};
use crate::tree::{
    Label, Tree, arm_tree, arm_trees, assoc_tree, assoc_trees, binding_tree, binding_trees,
    block_tree, const_tree, copy_generic, enum_tree, expr_tree, expr_trees, field_tree,
    field_trees, fn_tree, fn_trees, generic_tree, generic_trees, impl_tree, init_tree,
    init_trees, item_tree, item_trees, let_tree, lit_label, mod_tree, module_tree, name_tree,
    name_trees, node, opt_expr_tree, opt_name_tree, opt_type_tree, param_tree, param_trees,
    path_tree, path_trees, pattern_field_trees, pattern_tree, pattern_trees, range_expr,
    sig_tree, sig_trees, stmt_tree, stmt_trees, struct_tree, trait_tree, type_tree, type_trees,
    use_tree, variant_tree, variant_trees,
};

verus! {

#[derive(Debug, Clone, PartialEq, Eq)]
pub struct ParseError {
    pub message: String,
    pub span: Span,
}

impl ParseError {
    pub open spec fn fail(&self) -> Fail {
        Fail { message: self.message@, span: self.span }
    }

    /// The error as it is shown.
    pub fn display(&self) -> (r: String)
        ensures
            r@ == "parse error at "@ + dec(self.span.start as nat) + ".."@ + dec(self.span.end as nat) + ": "@
                + self.message@,
    {
        cat6(
            "parse error at ",
            &number(self.span.start),
            "..",
            &number(self.span.end),
            ": ",
            &self.message,
        )
    }
}

pub open spec fn fails_of(es: Seq<ParseError>) -> Seq<Fail> {
    Seq::new(es.len(), |i: int| es[i].fail())
}

// ---- what a parsing function gives, as the grammar states it ----

pub open spec fn seen_name(r: Result<Ident, ParseError>) -> Result<Tree, Fail> {
    match r {
        Ok(v) => Ok(name_tree(v)),
        Err(e) => Err(e.fail()),
    }
}

pub open spec fn seen_path(r: Result<Path, ParseError>) -> Result<Tree, Fail> {
    match r {
        Ok(v) => Ok(path_tree(v)),
        Err(e) => Err(e.fail()),
    }
}

pub open spec fn seen_type(r: Result<Type, ParseError>) -> Result<Tree, Fail> {
    match r {
        Ok(v) => Ok(type_tree(v)),
        Err(e) => Err(e.fail()),
    }
}

pub open spec fn seen_opt_type(r: Result<Option<Type>, ParseError>) -> Result<Tree, Fail> {
    match r {
        Ok(v) => Ok(opt_type_tree(v)),
        Err(e) => Err(e.fail()),
    }
}

pub open spec fn seen_generic(r: Result<GenericParam, ParseError>) -> Result<Tree, Fail> {
    match r {
        Ok(v) => Ok(generic_tree(v)),
        Err(e) => Err(e.fail()),
    }
}

pub open spec fn seen_param(r: Result<Param, ParseError>) -> Result<Tree, Fail> {
    match r {
        Ok(v) => Ok(param_tree(v)),
        Err(e) => Err(e.fail()),
    }
}

pub open spec fn seen_field(r: Result<Field, ParseError>) -> Result<Tree, Fail> {
    match r {
        Ok(v) => Ok(field_tree(v)),
        Err(e) => Err(e.fail()),
    }
}

pub open spec fn seen_variant(r: Result<Variant, ParseError>) -> Result<Tree, Fail> {
    match r {
        Ok(v) => Ok(variant_tree(v)),
        Err(e) => Err(e.fail()),
    }
}

pub open spec fn seen_fn(r: Result<FnDecl, ParseError>) -> Result<Tree, Fail> {
    match r {
        Ok(v) => Ok(fn_tree(v)),
        Err(e) => Err(e.fail()),
    }
}

pub open spec fn seen_struct(r: Result<StructDecl, ParseError>) -> Result<Tree, Fail> {
    match r {
        Ok(v) => Ok(struct_tree(v)),
        Err(e) => Err(e.fail()),
    }
}

pub open spec fn seen_enum(r: Result<EnumDecl, ParseError>) -> Result<Tree, Fail> {
    match r {
        Ok(v) => Ok(enum_tree(v)),
        Err(e) => Err(e.fail()),
    }
}

pub open spec fn seen_impl(r: Result<ImplBlock, ParseError>) -> Result<Tree, Fail> {
    match r {
        Ok(v) => Ok(impl_tree(v)),
        Err(e) => Err(e.fail()),
    }
}

pub open spec fn seen_trait(r: Result<TraitDecl, ParseError>) -> Result<Tree, Fail> {
    match r {
        Ok(v) => Ok(trait_tree(v)),
        Err(e) => Err(e.fail()),
    }
}

pub open spec fn seen_mod(r: Result<ModDecl, ParseError>) -> Result<Tree, Fail> {
    match r {
        Ok(v) => Ok(mod_tree(v)),
        Err(e) => Err(e.fail()),
    }
}

pub open spec fn seen_use(r: Result<UseDecl, ParseError>) -> Result<Tree, Fail> {
    match r {
        Ok(v) => Ok(use_tree(v)),
        Err(e) => Err(e.fail()),
    }
}

pub open spec fn seen_const(r: Result<ConstDecl, ParseError>) -> Result<Tree, Fail> {
    match r {
        Ok(v) => Ok(const_tree(v)),
        Err(e) => Err(e.fail()),
    }
}

pub open spec fn seen_item(r: Result<Item, ParseError>) -> Result<Tree, Fail> {
    match r {
        Ok(v) => Ok(item_tree(v)),
        Err(e) => Err(e.fail()),
    }
}

pub open spec fn seen_pattern(r: Result<Pattern, ParseError>) -> Result<Tree, Fail> {
    match r {
        Ok(v) => Ok(pattern_tree(v)),
        Err(e) => Err(e.fail()),
    }
}

pub open spec fn seen_pattern_field(r: Result<(Ident, Pattern), ParseError>) -> Result<Tree, Fail> {
    match r {
        Ok(v) => Ok(node(Label::PatternField, v.0.span, seq![name_tree(v.0), pattern_tree(v.1)])),
        Err(e) => Err(e.fail()),
    }
}

pub open spec fn seen_block(r: Result<Block, ParseError>) -> Result<Tree, Fail> {
    match r {
        Ok(v) => Ok(block_tree(v)),
        Err(e) => Err(e.fail()),
    }
}

pub open spec fn seen_stmt(r: Result<Stmt, ParseError>) -> Result<Tree, Fail> {
    match r {
        Ok(v) => Ok(stmt_tree(v)),
        Err(e) => Err(e.fail()),
    }
}

pub open spec fn seen_let(r: Result<LetStmt, ParseError>) -> Result<Tree, Fail> {
    match r {
        Ok(v) => Ok(let_tree(v)),
        Err(e) => Err(e.fail()),
    }
}

pub open spec fn seen_expr(r: Result<Expr, ParseError>) -> Result<Tree, Fail> {
    match r {
        Ok(v) => Ok(expr_tree(v)),
        Err(e) => Err(e.fail()),
    }
}

pub open spec fn seen_init(r: Result<FieldInit, ParseError>) -> Result<Tree, Fail> {
    match r {
        Ok(v) => Ok(init_tree(v)),
        Err(e) => Err(e.fail()),
    }
}

pub open spec fn seen_arm(r: Result<MatchArm, ParseError>) -> Result<Tree, Fail> {
    match r {
        Ok(v) => Ok(arm_tree(v)),
        Err(e) => Err(e.fail()),
    }
}

pub open spec fn seen_opt_name(r: Result<Option<Ident>, ParseError>) -> Result<Tree, Fail> {
    match r {
        Ok(v) => Ok(opt_name_tree(v)),
        Err(e) => Err(e.fail()),
    }
}

pub open spec fn seen_opt_expr(r: Result<Option<Expr>, ParseError>) -> Result<Tree, Fail> {
    match r {
        Ok(v) => Ok(opt_expr_tree(v)),
        Err(e) => Err(e.fail()),
    }
}

pub open spec fn seen_binding(r: Result<AssocTypeBinding, ParseError>) -> Result<Tree, Fail> {
    match r {
        Ok(v) => Ok(binding_tree(v)),
        Err(e) => Err(e.fail()),
    }
}

pub open spec fn seen_assoc(r: Result<AssocTypeDecl, ParseError>) -> Result<Tree, Fail> {
    match r {
        Ok(v) => Ok(assoc_tree(v)),
        Err(e) => Err(e.fail()),
    }
}

pub open spec fn seen_sig(r: Result<TraitMethodSig, ParseError>) -> Result<Tree, Fail> {
    match r {
        Ok(v) => Ok(sig_tree(v)),
        Err(e) => Err(e.fail()),
    }
}

pub open spec fn seen_names(r: Result<Vec<Ident>, ParseError>) -> Result<Seq<Tree>, Fail> {
    match r {
        Ok(v) => Ok(name_trees(v@)),
        Err(e) => Err(e.fail()),
    }
}

pub open spec fn seen_bounds(r: Result<Vec<Path>, ParseError>) -> Result<Seq<Tree>, Fail> {
    match r {
        Ok(v) => Ok(path_trees(v@)),
        Err(e) => Err(e.fail()),
    }
}

pub open spec fn seen_types(r: Result<Vec<Type>, ParseError>) -> Result<Seq<Tree>, Fail> {
    match r {
        Ok(v) => Ok(type_trees(v@)),
        Err(e) => Err(e.fail()),
    }
}

pub open spec fn seen_generics(r: Result<Vec<GenericParam>, ParseError>) -> Result<Seq<Tree>, Fail> {
    match r {
        Ok(v) => Ok(generic_trees(v@)),
        Err(e) => Err(e.fail()),
    }
}

pub open spec fn seen_params(r: Result<Vec<Param>, ParseError>) -> Result<Seq<Tree>, Fail> {
    match r {
        Ok(v) => Ok(param_trees(v@)),
        Err(e) => Err(e.fail()),
    }
}

pub open spec fn seen_fields(r: Result<Vec<Field>, ParseError>) -> Result<Seq<Tree>, Fail> {
    match r {
        Ok(v) => Ok(field_trees(v@)),
        Err(e) => Err(e.fail()),
    }
}

pub open spec fn seen_variants(r: Result<Vec<Variant>, ParseError>) -> Result<Seq<Tree>, Fail> {
    match r {
        Ok(v) => Ok(variant_trees(v@)),
        Err(e) => Err(e.fail()),
    }
}

pub open spec fn seen_patterns(r: Result<Vec<Pattern>, ParseError>) -> Result<Seq<Tree>, Fail> {
    match r {
        Ok(v) => Ok(pattern_trees(v@)),
        Err(e) => Err(e.fail()),
    }
}

pub open spec fn seen_pattern_fields(r: Result<Vec<(Ident, Pattern)>, ParseError>) -> Result<Seq<Tree>, Fail> {
    match r {
        Ok(v) => Ok(pattern_field_trees(v@)),
        Err(e) => Err(e.fail()),
    }
}

pub open spec fn seen_exprs(r: Result<Vec<Expr>, ParseError>) -> Result<Seq<Tree>, Fail> {
    match r {
        Ok(v) => Ok(expr_trees(v@)),
        Err(e) => Err(e.fail()),
    }
}

pub open spec fn seen_inits(r: Result<Vec<FieldInit>, ParseError>) -> Result<Seq<Tree>, Fail> {
    match r {
        Ok(v) => Ok(init_trees(v@)),
        Err(e) => Err(e.fail()),
    }
}

pub open spec fn seen_stmts(r: Result<Vec<Stmt>, ParseError>) -> Result<Seq<Tree>, Fail> {
    match r {
        Ok(v) => Ok(stmt_trees(v@)),
        Err(e) => Err(e.fail()),
    }
}

pub open spec fn seen_items(r: Result<Vec<Item>, ParseError>) -> Result<Seq<Tree>, Fail> {
    match r {
        Ok(v) => Ok(item_trees(v@)),
        Err(e) => Err(e.fail()),
    }
}

pub open spec fn seen_arms(r: Result<Vec<MatchArm>, ParseError>) -> Result<Seq<Tree>, Fail> {
    match r {
        Ok(v) => Ok(arm_trees(v@)),
        Err(e) => Err(e.fail()),
    }
}

pub open spec fn seen_use_names(r: Result<(Vec<Ident>, bool), ParseError>) -> Result<(Seq<Tree>, bool), Fail> {
    match r {
        Ok(v) => Ok((name_trees(v.0@), v.1)),
        Err(e) => Err(e.fail()),
    }
}

pub open spec fn seen_span(r: Result<Span, ParseError>) -> Result<Span, Fail> {
    match r {
        Ok(v) => Ok(v),
        Err(e) => Err(e.fail()),
    }
}

pub open spec fn seen_literal(r: Result<(Lit, Span), ParseError>) -> Result<(Label, Span), Fail> {
    match r {
        Ok(v) => Ok((lit_label(v.0), v.1)),
        Err(e) => Err(e.fail()),
    }
}

pub open spec fn seen_length(r: Result<usize, ParseError>) -> Result<usize, Fail> {
    match r {
        Ok(v) => Ok(v),
        Err(e) => Err(e.fail()),
    }
}

/// The members of an impl, sorted by what they are.
pub open spec fn impl_members_seen(
    r: Result<(Vec<AssocTypeBinding>, Vec<FnDecl>), ParseError>,
    s: Result<Seq<Tree>, Fail>,
) -> bool {
    match s {
        Ok(ms) => {
            &&& r is Ok
            &&& binding_trees(r->Ok_0.0@) == member_types(ms)
            &&& fn_trees(r->Ok_0.1@) == member_fns(ms)
        },
        Err(f) => r is Err && r->Err_0.fail() == f,
    }
}

/// The members of a trait, sorted by what they are.
pub open spec fn trait_members_seen(
    r: Result<(Vec<AssocTypeDecl>, Vec<TraitMethodSig>), ParseError>,
    s: Result<Seq<Tree>, Fail>,
) -> bool {
    match s {
        Ok(ms) => {
            &&& r is Ok
            &&& assoc_trees(r->Ok_0.0@) == member_types(ms)
            &&& sig_trees(r->Ok_0.1@) == member_fns(ms)
        },
        Err(f) => r is Err && r->Err_0.fail() == f,
    }
}

/// One list of type parameters before another.
pub fn merge_generics(first: &Vec<GenericParam>, second: Vec<GenericParam>) -> (r: Vec<GenericParam>)
    ensures
        generic_trees(r@) == generic_trees(first@) + generic_trees(second@),
{
    let ghost whole = second@;
    let mut second = second;
    let mut out: Vec<GenericParam> = Vec::new();
    let mut i: usize = 0;
    while i < first.len()
        invariant
            i <= first.len(),
            out.len() == i,
            forall|j: int| 0 <= j < i ==> generic_tree(#[trigger] out[j]) == generic_tree(first[j]),
        decreases first.len() - i,
    {
        out.push(copy_generic(&first[i]));
        i += 1;
    }
    out.append(&mut second);
    assert(generic_trees(out@) =~= generic_trees(first@) + generic_trees(whole));
    out
}

// ---- token kinds ----

/// A number for each kind that carries no data.
pub open spec fn kind_code(k: TokenKind) -> u8 {
    match k {
        TokenKind::Let => 0,
        TokenKind::Mut => 1,
        TokenKind::Fn => 2,
        TokenKind::Return => 3,
        TokenKind::If => 4,
        TokenKind::Else => 5,
        TokenKind::While => 6,
        TokenKind::For => 7,
        TokenKind::In => 8,
        TokenKind::Break => 9,
        TokenKind::Continue => 10,
        TokenKind::True => 11,
        TokenKind::False => 12,
        TokenKind::Struct => 13,
        TokenKind::Enum => 14,
        TokenKind::Match => 15,
        TokenKind::Pub => 16,
        TokenKind::Const => 17,
        TokenKind::As => 18,
        TokenKind::Impl => 19,
        TokenKind::Trait => 20,
        TokenKind::Mod => 21,
        TokenKind::Use => 22,
        TokenKind::Dyn => 23,
        TokenKind::Plus => 24,
        TokenKind::Minus => 25,
        TokenKind::Star => 26,
        TokenKind::Slash => 27,
        TokenKind::Percent => 28,
        TokenKind::Eq => 29,
        TokenKind::PlusEq => 30,
        TokenKind::MinusEq => 31,
        TokenKind::StarEq => 32,
        TokenKind::SlashEq => 33,
        TokenKind::PercentEq => 34,
        TokenKind::AmpEq => 35,
        TokenKind::PipeEq => 36,
        TokenKind::CaretEq => 37,
        TokenKind::ShlEq => 38,
        TokenKind::ShrEq => 39,
        TokenKind::EqEq => 40,
        TokenKind::BangEq => 41,
        TokenKind::Lt => 42,
        TokenKind::Gt => 43,
        TokenKind::LtEq => 44,
        TokenKind::GtEq => 45,
        TokenKind::AmpAmp => 46,
        TokenKind::PipePipe => 47,
        TokenKind::Bang => 48,
        TokenKind::Amp => 49,
        TokenKind::Pipe => 50,
        TokenKind::Caret => 51,
        TokenKind::Tilde => 52,
        TokenKind::Shl => 53,
        TokenKind::Shr => 54,
        TokenKind::Arrow => 55,
        TokenKind::FatArrow => 56,
        TokenKind::Dot => 57,
        TokenKind::DotDot => 58,
        TokenKind::DotDotEq => 59,
        TokenKind::Colon => 60,
        TokenKind::ColonColon => 61,
        TokenKind::Question => 62,
        TokenKind::LParen => 63,
        TokenKind::RParen => 64,
        TokenKind::LBrace => 65,
        TokenKind::RBrace => 66,
        TokenKind::LBracket => 67,
        TokenKind::RBracket => 68,
        TokenKind::Comma => 69,
        TokenKind::Semi => 70,
        TokenKind::Eof => 71,
        _ => 255,
    }
}

fn code_of(k: &TokenKind) -> (r: u8)
    ensures
        r == kind_code(*k),
{
    match k {
        TokenKind::Let => 0,
        TokenKind::Mut => 1,
        TokenKind::Fn => 2,
        TokenKind::Return => 3,
        TokenKind::If => 4,
        TokenKind::Else => 5,
        TokenKind::While => 6,
        TokenKind::For => 7,
        TokenKind::In => 8,
        TokenKind::Break => 9,
        TokenKind::Continue => 10,
        TokenKind::True => 11,
        TokenKind::False => 12,
        TokenKind::Struct => 13,
        TokenKind::Enum => 14,
        TokenKind::Match => 15,
        TokenKind::Pub => 16,
        TokenKind::Const => 17,
        TokenKind::As => 18,
        TokenKind::Impl => 19,
        TokenKind::Trait => 20,
        TokenKind::Mod => 21,
        TokenKind::Use => 22,
        TokenKind::Dyn => 23,
        TokenKind::Plus => 24,
        TokenKind::Minus => 25,
        TokenKind::Star => 26,
        TokenKind::Slash => 27,
        TokenKind::Percent => 28,
        TokenKind::Eq => 29,
        TokenKind::PlusEq => 30,
        TokenKind::MinusEq => 31,
        TokenKind::StarEq => 32,
        TokenKind::SlashEq => 33,
        TokenKind::PercentEq => 34,
        TokenKind::AmpEq => 35,
        TokenKind::PipeEq => 36,
        TokenKind::CaretEq => 37,
        TokenKind::ShlEq => 38,
        TokenKind::ShrEq => 39,
        TokenKind::EqEq => 40,
        TokenKind::BangEq => 41,
        TokenKind::Lt => 42,
        TokenKind::Gt => 43,
        TokenKind::LtEq => 44,
        TokenKind::GtEq => 45,
        TokenKind::AmpAmp => 46,
        TokenKind::PipePipe => 47,
        TokenKind::Bang => 48,
        TokenKind::Amp => 49,
        TokenKind::Pipe => 50,
        TokenKind::Caret => 51,
        TokenKind::Tilde => 52,
        TokenKind::Shl => 53,
        TokenKind::Shr => 54,
        TokenKind::Arrow => 55,
        TokenKind::FatArrow => 56,
        TokenKind::Dot => 57,
        TokenKind::DotDot => 58,
        TokenKind::DotDotEq => 59,
        TokenKind::Colon => 60,
        TokenKind::ColonColon => 61,
        TokenKind::Question => 62,
        TokenKind::LParen => 63,
        TokenKind::RParen => 64,
        TokenKind::LBrace => 65,
        TokenKind::RBrace => 66,
        TokenKind::LBracket => 67,
        TokenKind::RBracket => 68,
        TokenKind::Comma => 69,
        TokenKind::Semi => 70,
        TokenKind::Eof => 71,
        _ => 255,
    }
}

/// Two kinds with the same number, one of which carries no data, are the same.
#[verifier::spinoff_prover]
proof fn same_code_same_kind(a: TokenKind, b: TokenKind)
    requires
        b@ == TokenKindV::Plain(b),
    ensures
        (kind_code(a) == kind_code(b)) == (a@ == TokenKindV::Plain(b)),
{
}

fn name_of_kind(k: &TokenKind) -> (r: &'static str)
    ensures
        r@ == kind_name(*k),
{
    match k {
        TokenKind::Let => "Let",
        TokenKind::Mut => "Mut",
        TokenKind::Fn => "Fn",
        TokenKind::Return => "Return",
        TokenKind::If => "If",
        TokenKind::Else => "Else",
        TokenKind::While => "While",
        TokenKind::For => "For",
        TokenKind::In => "In",
        TokenKind::Break => "Break",
        TokenKind::Continue => "Continue",
        TokenKind::True => "True",
        TokenKind::False => "False",
        TokenKind::Struct => "Struct",
        TokenKind::Enum => "Enum",
        TokenKind::Match => "Match",
        TokenKind::Pub => "Pub",
        TokenKind::Const => "Const",
        TokenKind::As => "As",
        TokenKind::Impl => "Impl",
        TokenKind::Trait => "Trait",
        TokenKind::Mod => "Mod",
        TokenKind::Use => "Use",
        TokenKind::Dyn => "Dyn",
        TokenKind::Plus => "Plus",
        TokenKind::Minus => "Minus",
        TokenKind::Star => "Star",
        TokenKind::Slash => "Slash",
        TokenKind::Percent => "Percent",
        TokenKind::Eq => "Eq",
        TokenKind::PlusEq => "PlusEq",
        TokenKind::MinusEq => "MinusEq",
        TokenKind::StarEq => "StarEq",
        TokenKind::SlashEq => "SlashEq",
        TokenKind::PercentEq => "PercentEq",
        TokenKind::AmpEq => "AmpEq",
        TokenKind::PipeEq => "PipeEq",
        TokenKind::CaretEq => "CaretEq",
        TokenKind::ShlEq => "ShlEq",
        TokenKind::ShrEq => "ShrEq",
        TokenKind::EqEq => "EqEq",
        TokenKind::BangEq => "BangEq",
        TokenKind::Lt => "Lt",
        TokenKind::Gt => "Gt",
        TokenKind::LtEq => "LtEq",
        TokenKind::GtEq => "GtEq",
        TokenKind::AmpAmp => "AmpAmp",
        TokenKind::PipePipe => "PipePipe",
        TokenKind::Bang => "Bang",
        TokenKind::Amp => "Amp",
        TokenKind::Pipe => "Pipe",
        TokenKind::Caret => "Caret",
        TokenKind::Tilde => "Tilde",
        TokenKind::Shl => "Shl",
        TokenKind::Shr => "Shr",
        TokenKind::Arrow => "Arrow",
        TokenKind::FatArrow => "FatArrow",
        TokenKind::Dot => "Dot",
        TokenKind::DotDot => "DotDot",
        TokenKind::DotDotEq => "DotDotEq",
        TokenKind::Colon => "Colon",
        TokenKind::ColonColon => "ColonColon",
        TokenKind::Question => "Question",
        TokenKind::LParen => "LParen",
        TokenKind::RParen => "RParen",
        TokenKind::LBrace => "LBrace",
        TokenKind::RBrace => "RBrace",
        TokenKind::LBracket => "LBracket",
        TokenKind::RBracket => "RBracket",
        TokenKind::Comma => "Comma",
        TokenKind::Semi => "Semi",
        TokenKind::Eof => "Eof",
        _ => "",
    }
}

/// A token kind in a message.
fn describe_kind(k: &TokenKind) -> (r: String)
    ensures
        r@ == described(k@),
{
    match k {
        TokenKind::Ident(s) => cat3("identifier `", s, "`"),
        TokenKind::Int(v, _) => {
            let mut n = String::new();
            push_dec_int(&mut n, *v);
            proof {
                reveal_strlit("");
            }
            assert(n@ =~= dec_int(*v as int));
            cat3("integer `", &n, "`")
        },
        TokenKind::Float(s, _) => cat3("float `", s, "`"),
        TokenKind::Str(_) => String::from_str("string literal"),
        TokenKind::Char(_) => String::from_str("char literal"),
        TokenKind::Eof => String::from_str("end of input"),
        other => cat3("`", name_of_kind(other), "`"),
    }
}

pub fn infix_binding_power(tok: &TokenKind) -> (r: Option<InfixOp>)
    ensures
        r == infix_op(tok@),
{
    match tok {
        TokenKind::Eq => Some(InfixOp { kind: InfixKind::Assign, left: 2, right: 1 }),
        TokenKind::PlusEq => Some(InfixOp { kind: InfixKind::AssignOp(BinOp::Add), left: 2, right: 1 }),
        TokenKind::MinusEq => Some(InfixOp { kind: InfixKind::AssignOp(BinOp::Sub), left: 2, right: 1 }),
        TokenKind::StarEq => Some(InfixOp { kind: InfixKind::AssignOp(BinOp::Mul), left: 2, right: 1 }),
        TokenKind::SlashEq => Some(InfixOp { kind: InfixKind::AssignOp(BinOp::Div), left: 2, right: 1 }),
        TokenKind::PercentEq => Some(InfixOp { kind: InfixKind::AssignOp(BinOp::Mod), left: 2, right: 1 }),
        TokenKind::DotDot => Some(InfixOp { kind: InfixKind::Range(false), left: 3, right: 4 }),
        TokenKind::DotDotEq => Some(InfixOp { kind: InfixKind::Range(true), left: 3, right: 4 }),
        TokenKind::PipePipe => Some(InfixOp { kind: InfixKind::BinOp(BinOp::Or), left: 5, right: 6 }),
        TokenKind::AmpAmp => Some(InfixOp { kind: InfixKind::BinOp(BinOp::And), left: 7, right: 8 }),
        TokenKind::EqEq => Some(InfixOp { kind: InfixKind::BinOp(BinOp::Eq), left: 9, right: 10 }),
        TokenKind::BangEq => Some(InfixOp { kind: InfixKind::BinOp(BinOp::Ne), left: 9, right: 10 }),
        TokenKind::Lt => Some(InfixOp { kind: InfixKind::BinOp(BinOp::Lt), left: 9, right: 10 }),
        TokenKind::Gt => Some(InfixOp { kind: InfixKind::BinOp(BinOp::Gt), left: 9, right: 10 }),
        TokenKind::LtEq => Some(InfixOp { kind: InfixKind::BinOp(BinOp::Le), left: 9, right: 10 }),
        TokenKind::GtEq => Some(InfixOp { kind: InfixKind::BinOp(BinOp::Ge), left: 9, right: 10 }),
        TokenKind::Pipe => Some(InfixOp { kind: InfixKind::BinOp(BinOp::BitOr), left: 11, right: 12 }),
        TokenKind::Caret => Some(InfixOp { kind: InfixKind::BinOp(BinOp::BitXor), left: 13, right: 14 }),
        TokenKind::Amp => Some(InfixOp { kind: InfixKind::BinOp(BinOp::BitAnd), left: 15, right: 16 }),
        TokenKind::Shl => Some(InfixOp { kind: InfixKind::BinOp(BinOp::Shl), left: 17, right: 18 }),
        TokenKind::Shr => Some(InfixOp { kind: InfixKind::BinOp(BinOp::Shr), left: 17, right: 18 }),
        TokenKind::Plus => Some(InfixOp { kind: InfixKind::BinOp(BinOp::Add), left: 19, right: 20 }),
        TokenKind::Minus => Some(InfixOp { kind: InfixKind::BinOp(BinOp::Sub), left: 19, right: 20 }),
        TokenKind::Star => Some(InfixOp { kind: InfixKind::BinOp(BinOp::Mul), left: 21, right: 22 }),
        TokenKind::Slash => Some(InfixOp { kind: InfixKind::BinOp(BinOp::Div), left: 21, right: 22 }),
        TokenKind::Percent => Some(InfixOp { kind: InfixKind::BinOp(BinOp::Mod), left: 21, right: 22 }),
        TokenKind::As => Some(InfixOp { kind: InfixKind::Cast, left: 23, right: 24 }),
        _ => None,
    }
}

/// An infix operator other than a cast, applied.
pub fn infix_expr(kind: InfixKind, lhs: Expr, rhs: Expr, span: Span) -> (r: Expr)
    requires
        !(kind is Cast),
        span == span_from_to(expr_tree(lhs).span, expr_tree(rhs).span),
    ensures
        expr_tree(r) == applied_infix(kind, expr_tree(lhs), expr_tree(rhs)),
{
    match kind {
        InfixKind::BinOp(op) => Expr::Binary { op, lhs: Box::new(lhs), rhs: Box::new(rhs), span },
        InfixKind::Assign => Expr::Assign { lhs: Box::new(lhs), rhs: Box::new(rhs), span },
        InfixKind::AssignOp(op) => Expr::AssignOp { op, lhs: Box::new(lhs), rhs: Box::new(rhs), span },
        InfixKind::Range(inclusive) => range_expr(lhs, rhs, inclusive, span),
        InfixKind::Cast => lhs,
    }
}

/// A function with type parameters put before its own.
pub fn with_generics_before(generics: &Vec<GenericParam>, f: FnDecl) -> (r: FnDecl)
    ensures
        fn_tree(r) == with_generics(generic_trees(generics@), fn_tree(f)),
{
    let FnDecl { vis, name, generics: own, params, return_type, body, span } = f;
    let merged = merge_generics(generics, own);
    let r = FnDecl { vis, name, generics: merged, params, return_type, body, span };
    assert(fn_tree(r).parts =~= with_generics(generic_trees(generics@), fn_tree(f)).parts);
    r
}

/// Whether a statement of this expression needs no semicolon.
pub fn expr_can_omit_semi(e: &Expr) -> (r: bool)
    ensures
        r == ends_in_block(expr_tree(*e).label),
{
    match e {
        Expr::If { .. } => true,
        Expr::While { .. } => true,
        Expr::For { .. } => true,
        Expr::Match { .. } => true,
        Expr::Block(_) => true,
        _ => false,
    }
}

// ---- the parser ----

pub struct Parser {
    tokens: Vec<Token>,
    pos: usize,
    src_end: usize,
    /// In a condition or scrutinee a brace opens the body, no block
    /// expression.
    no_block_expr: bool,
    /// There a path before a brace is no struct literal either.
    no_struct_lit: bool,
}

impl View for Parser {
    type V = Input;

    closed spec fn view(&self) -> Input {
        Input {
            toks: token_views(self.tokens@),
            pos: self.pos as nat,
            no_block: self.no_block_expr,
            no_struct: self.no_struct_lit,
        }
    }
}

impl Parser {
    /// The tokens end with the end of the input, and the position is in them.
    pub open spec fn wf(&self) -> bool {
        input_wf(self@)
    }

    /// The end of the last token, with which a module's span ends.
    pub closed spec fn end(&self) -> usize {
        self.src_end
    }

    pub fn new(tokens: Vec<Token>) -> (r: Self)
        ensures
            r@ == input_of(token_views(tokens@)),
            tokens.len() > 0 ==> r.end() == tokens@.last().span.end,
            tokens.len() == 0 ==> r.end() == 0,
    {
        let src_end: usize = if tokens.len() > 0 {
            tokens[tokens.len() - 1].span.end
        } else {
            0
        };
        Parser { tokens, pos: 0, src_end, no_block_expr: false, no_struct_lit: false }
    }

    /// The module that the tokens are, and every error in them.
    pub fn parse_module(self) -> (r: (Module, Vec<ParseError>))
        requires
            self.wf(),
            self@ == input_of(self@.toks),
            self.end() == self@.toks.last().span.end,
        ensures
            (module_tree(r.0), fails_of(r.1@)) == module_of(self@.toks),
    {
        let src_end = self.src_end;
        let mut this = self;
        let ghost start = this@;
        let mut items: Vec<Item> = Vec::new();
        let mut errors: Vec<ParseError> = Vec::new();
        assert(item_trees(items@) =~= seq![]);
        assert(fails_of(errors@) =~= seq![]);
        while !this.is_eof()
            invariant
                this.wf(),
                read_items(start, seq![], seq![]) == read_items(this@, item_trees(items@), fails_of(errors@)),
            decreases tokens_left(this@),
        {
            let ghost before = this@;
            match this.parse_item(NESTING_LIMIT) {
                Ok(item) => {
                    assert(item_trees(items@.push(item)) =~= item_trees(items@).push(item_tree(item)));
                    items.push(item);
                },
                Err(e) => {
                    assert(fails_of(errors@.push(e)) =~= fails_of(errors@).push(e.fail()));
                    errors.push(e);
                    this.synchronize_item();
                },
            }
        }
        let span = Span::new(0, src_end);
        (Module { items, span }, errors)
    }

    // ---- tokens ----

    pub(crate) fn peek(&self) -> (r: &TokenKind)
        requires
            self.wf(),
        ensures
            r@ == tok_at(self@).kind,
    {
        let i: usize = if self.pos < self.tokens.len() {
            self.pos
        } else {
            self.tokens.len() - 1
        };
        assert(token_view(self.tokens@[i as int]) == tok_at(self@));
        &self.tokens[i].kind
    }

    pub(crate) fn peek_span(&self) -> (r: Span)
        requires
            self.wf(),
        ensures
            r == tok_span(self@),
    {
        let i: usize = if self.pos < self.tokens.len() {
            self.pos
        } else {
            self.tokens.len() - 1
        };
        assert(token_view(self.tokens@[i as int]) == tok_at(self@));
        self.tokens[i].span
    }

    /// Steps over the next token and gives its span.
    pub(crate) fn bump(&mut self) -> (r: Span)
        requires
            old(self).wf(),
        ensures
            final(self).wf(),
            final(self)@ == bumped(old(self)@),
            r == tok_span(old(self)@),
            tokens_left(final(self)@) <= tokens_left(old(self)@),
            !tok_is(old(self)@, TokenKind::Eof) ==> tokens_left(final(self)@) < tokens_left(old(self)@),
    {
        let span = self.peek_span();
        if self.pos < self.tokens.len() {
            self.pos += 1;
        }
        span
    }

    pub(crate) fn is_eof(&self) -> (r: bool)
        requires
            self.wf(),
        ensures
            r == tok_is(self@, TokenKind::Eof),
    {
        matches!(self.peek(), TokenKind::Eof)
    }

    /// Whether the next token is of a kind that carries no data.
    pub(crate) fn check(&self, kind: &TokenKind) -> (r: bool)
        requires
            self.wf(),
            kind@ == TokenKindV::Plain(*kind),
        ensures
            r == tok_is(self@, *kind),
    {
        let k = self.peek();
        proof {
            same_code_same_kind(*k, *kind);
        }
        code_of(k) == code_of(kind)
    }

    pub(crate) fn eat(&mut self, kind: &TokenKind) -> (r: bool)
        requires
            old(self).wf(),
            kind@ == TokenKindV::Plain(*kind),
            !(*kind is Eof),
        ensures
            final(self).wf(),
            r == tok_is(old(self)@, *kind),
            final(self)@ == if r {
                bumped(old(self)@)
            } else {
                old(self)@
            },
            tokens_left(final(self)@) <= tokens_left(old(self)@),
            r ==> tokens_left(final(self)@) < tokens_left(old(self)@),
    {
        if self.check(kind) {
            self.bump();
            true
        } else {
            false
        }
    }

    pub(crate) fn expected(&self, what: &str) -> (r: ParseError)
        requires
            self.wf(),
        ensures
            r.fail() == expected_here(self@, what@),
    {
        ParseError {
            message: cat4("expected ", what, ", found ", &describe_kind(self.peek())),
            span: self.peek_span(),
        }
    }

    pub(crate) fn too_deep(&self) -> (r: ParseError)
        requires
            self.wf(),
        ensures
            r.fail() == nested_too_deeply(self@),
    {
        ParseError { message: String::from_str("code is nested too deeply"), span: self.peek_span() }
    }

    pub(crate) fn expect(&mut self, kind: &TokenKind, what: &str) -> (r: Result<Span, ParseError>)
        requires
            old(self).wf(),
            kind@ == TokenKindV::Plain(*kind),
            !(*kind is Eof),
        ensures
            final(self).wf(),
            (final(self)@, seen_span(r)) == read_token(old(self)@, *kind, what@),
            tokens_left(final(self)@) <= tokens_left(old(self)@),
            r is Ok ==> tokens_left(final(self)@) < tokens_left(old(self)@),
    {
        if self.check(kind) {
            Ok(self.bump())
        } else {
            Err(self.expected(what))
        }
    }

    pub(crate) fn expect_ident(&mut self) -> (r: Result<Ident, ParseError>)
        requires
            old(self).wf(),
        ensures
            final(self).wf(),
            (final(self)@, seen_name(r)) == read_name(old(self)@),
            tokens_left(final(self)@) <= tokens_left(old(self)@),
            r is Ok ==> tokens_left(final(self)@) < tokens_left(old(self)@),
    {
        let span = self.peek_span();
        if let TokenKind::Ident(name) = self.peek() {
            let name = name.clone();
            self.bump();
            Ok(Ident { name, span })
        } else {
            Err(self.expected("identifier"))
        }
    }

    /// One closing `>` of a type-argument list; a `>>` is split in place.
    pub(crate) fn expect_generic_close(&mut self) -> (r: Result<Span, ParseError>)
        requires
            old(self).wf(),
        ensures
            final(self).wf(),
            (final(self)@, seen_span(r)) == read_generic_close(old(self)@),
            tokens_left(final(self)@) <= tokens_left(old(self)@),
            r is Ok ==> tokens_left(final(self)@) < tokens_left(old(self)@),
    {
        let ghost p = self@;
        if self.check(&TokenKind::Gt) {
            return Ok(self.bump());
        }
        if self.check(&TokenKind::Shr) {
            let sp = self.peek_span();
            let mid = sp.start.wrapping_add(1);
            assert(mid == wrapped_next(sp.start));
            let half = Token::new(TokenKind::Gt, Span::new(mid, sp.end));
            assert(self.pos < self.tokens.len());
            self.tokens.set(self.pos, half);
            proof {
                let v = TokenV {
                    kind: TokenKindV::Plain(TokenKind::Gt),
                    span: Span { start: mid, end: sp.end },
                };
                assert(self@.toks =~= p.toks.update(p.pos as int, v));
            }
            return Ok(Span::new(sp.start, mid));
        }
        Err(self.expected("`>`"))
    }

    /// Whether the next token is this word: for words like `type` that are
    /// names elsewhere.
    pub(crate) fn check_contextual(&self, word: &str) -> (r: bool)
        requires
            self.wf(),
        ensures
            r == (tok_at(self@).kind == TokenKindV::Ident(word@)),
    {
        match self.peek() {
            TokenKind::Ident(s) => same_text(s, word),
            _ => false,
        }
    }

    /// Whether `::` comes after the next token.
    pub(crate) fn path_follows(&self) -> (r: bool)
        requires
            self.wf(),
            !tok_is(self@, TokenKind::Eof),
        ensures
            r == tok_is(bumped(self@), TokenKind::ColonColon),
    {
        assert(self.pos + 1 < self.tokens.len()) by {
            assert(self@.toks.last() == token_view(self.tokens@.last()));
        }
        assert(token_view(self.tokens@[self.pos + 1]) == tok_at(bumped(self@)));
        matches!(self.tokens[self.pos + 1].kind, TokenKind::ColonColon)
    }

    pub(crate) fn blocks_barred(&self) -> (r: bool)
        ensures
            r == self@.no_block,
    {
        self.no_block_expr
    }

    pub(crate) fn struct_literals_barred(&self) -> (r: bool)
        ensures
            r == self@.no_struct,
    {
        self.no_struct_lit
    }

    /// Bars or allows block expressions and struct literals from here on.
    pub(crate) fn bar(&mut self, blocks: bool, struct_literals: bool)
        requires
            old(self).wf(),
        ensures
            final(self).wf(),
            final(self)@ == (Input { no_block: blocks, no_struct: struct_literals, ..old(self)@ }),
            tokens_left(final(self)@) == tokens_left(old(self)@),
    {
        self.no_block_expr = blocks;
        self.no_struct_lit = struct_literals;
    }

    /// Steps to the next token with which an item may begin.
    pub(crate) fn synchronize_item(&mut self)
        requires
            old(self).wf(),
        ensures
            final(self).wf(),
            final(self)@ == next_item(old(self)@),
            tokens_left(final(self)@) <= tokens_left(old(self)@),
            !tok_is(old(self)@, TokenKind::Eof) && !starts_item(tok_at(old(self)@).kind) ==> tokens_left(
                final(self)@,
            ) < tokens_left(old(self)@),
    {
        let ghost start = self@;
        while !self.is_eof() && !self.at_item()
            invariant
                self.wf(),
                start == old(self)@,
                next_item(start) == next_item(self@),
                tokens_left(self@) <= tokens_left(start),
                self@ == start || tokens_left(self@) < tokens_left(start),
            decreases tokens_left(self@),
        {
            self.bump();
        }
    }

    pub(crate) fn at_item(&self) -> (r: bool)
        requires
            self.wf(),
        ensures
            r == starts_item(tok_at(self@).kind),
    {
        match self.peek() {
            TokenKind::Fn => true,
            TokenKind::Struct => true,
            TokenKind::Enum => true,
            TokenKind::Const => true,
            TokenKind::Pub => true,
            TokenKind::Impl => true,
            TokenKind::Trait => true,
            TokenKind::Mod => true,
            TokenKind::Use => true,
            _ => false,
        }
    }

    /// The visibility written before an item or a field.
    pub(crate) fn parse_visibility(&mut self) -> (r: Visibility)
        requires
            old(self).wf(),
        ensures
            final(self).wf(),
            r == visibility_at(old(self)@),
            final(self)@ == past_visibility(old(self)@),
            tokens_left(final(self)@) <= tokens_left(old(self)@),
            tok_is(old(self)@, TokenKind::Pub) ==> tokens_left(final(self)@) < tokens_left(old(self)@),
    {
        if self.eat(&TokenKind::Pub) {
            Visibility::Pub
        } else {
            Visibility::Private
        }
    }

}

} // verus!

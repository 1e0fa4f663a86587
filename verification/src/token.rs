//! Token definitions for Rune.

use vstd::prelude::*;

use crate::text::same_text;
use crate::ty::{FloatTy, IntTy};

verus! {

/// A half-open range of byte offsets in the source text.
#[derive(Debug, Clone, Copy, PartialEq, Eq, Hash, Structural)]
pub struct Span {
    pub start: usize,
    pub end: usize,
}

impl Span {
    pub fn new(start: usize, end: usize) -> (r: Self)
        ensures
            r == (Span { start, end }),
    {
        Span { start, end }
    }
}

#[derive(Debug, Clone, PartialEq)]
pub struct Token {
    pub kind: TokenKind,
    pub span: Span,
}

impl Token {
    pub fn new(kind: TokenKind, span: Span) -> (r: Self)
        ensures
            r.kind == kind,
            r.span == span,
    {
        Token { kind, span }
    }
}

/// The lexical category of a token. Number literals carry the type suffix
/// they were written with, if any; a float literal carries its digits, with
/// separators removed, in the form `str::parse` takes.
#[derive(Debug, Clone, PartialEq)]
pub enum TokenKind {
    // Literals
    Int(i64, Option<IntTy>),
    Float(String, Option<FloatTy>),
    Str(String),
    Char(char),
    Ident(String),
    // Keywords
    Let,
    Mut,
    Fn,
    Return,
    If,
    Else,
    While,
    For,
    In,
    Break,
    Continue,
    True,
    False,
    Struct,
    Enum,
    Match,
    Pub,
    Const,
    As,
    Impl,
    Trait,
    Mod,
    Use,
    Dyn,
    // Arithmetic
    Plus,
    Minus,
    Star,
    Slash,
    Percent,
    // Assignment and compound assignment
    Eq,
    PlusEq,
    MinusEq,
    StarEq,
    SlashEq,
    PercentEq,
    AmpEq,
    PipeEq,
    CaretEq,
    ShlEq,
    ShrEq,
    // Comparison
    EqEq,
    BangEq,
    Lt,
    Gt,
    LtEq,
    GtEq,
    // Logical
    AmpAmp,
    PipePipe,
    Bang,
    // Bitwise
    Amp,
    Pipe,
    Caret,
    Tilde,
    Shl,
    Shr,
    // Misc operators
    Arrow,
    FatArrow,
    Dot,
    DotDot,
    DotDotEq,
    Colon,
    ColonColon,
    Question,
    // Delimiters
    LParen,
    RParen,
    LBrace,
    RBrace,
    LBracket,
    RBracket,
    // Punctuation
    Comma,
    Semi,
    // End of input
    Eof,
}

/// What a token kind says, with its texts as character sequences.
pub enum TokenKindV {
    Int(i64, Option<IntTy>),
    Float(Seq<char>, Option<FloatTy>),
    Str(Seq<char>),
    Char(char),
    Ident(Seq<char>),
    /// Any kind that carries no data, as itself.
    Plain(TokenKind),
}

impl View for TokenKind {
    type V = TokenKindV;

    open spec fn view(&self) -> TokenKindV {
        match self {
            TokenKind::Int(v, t) => TokenKindV::Int(*v, *t),
            TokenKind::Float(s, t) => TokenKindV::Float(s@, *t),
            TokenKind::Str(s) => TokenKindV::Str(s@),
            TokenKind::Char(c) => TokenKindV::Char(*c),
            TokenKind::Ident(s) => TokenKindV::Ident(s@),
            k => TokenKindV::Plain(*k),
        }
    }
}

/// The keyword a word spells, if it is one.
pub open spec fn keyword(s: Seq<char>) -> Option<TokenKind> {
    if s == "let"@ {
        Some(TokenKind::Let)
    } else if s == "mut"@ {
        Some(TokenKind::Mut)
    } else if s == "fn"@ {
        Some(TokenKind::Fn)
    } else if s == "return"@ {
        Some(TokenKind::Return)
    } else if s == "if"@ {
        Some(TokenKind::If)
    } else if s == "else"@ {
        Some(TokenKind::Else)
    } else if s == "while"@ {
        Some(TokenKind::While)
    } else if s == "for"@ {
        Some(TokenKind::For)
    } else if s == "in"@ {
        Some(TokenKind::In)
    } else if s == "break"@ {
        Some(TokenKind::Break)
    } else if s == "continue"@ {
        Some(TokenKind::Continue)
    } else if s == "true"@ {
        Some(TokenKind::True)
    } else if s == "false"@ {
        Some(TokenKind::False)
    } else if s == "struct"@ {
        Some(TokenKind::Struct)
    } else if s == "enum"@ {
        Some(TokenKind::Enum)
    } else if s == "match"@ {
        Some(TokenKind::Match)
    } else if s == "pub"@ {
        Some(TokenKind::Pub)
    } else if s == "const"@ {
        Some(TokenKind::Const)
    } else if s == "as"@ {
        Some(TokenKind::As)
    } else if s == "impl"@ {
        Some(TokenKind::Impl)
    } else if s == "trait"@ {
        Some(TokenKind::Trait)
    } else if s == "mod"@ {
        Some(TokenKind::Mod)
    } else if s == "use"@ {
        Some(TokenKind::Use)
    } else if s == "dyn"@ {
        Some(TokenKind::Dyn)
    } else {
        None
    }
}

impl TokenKind {
    pub fn keyword_from_str(s: &str) -> (r: Option<Self>)
        ensures
            r == keyword(s@),
    {
        if same_text(s, "let") {
            Some(TokenKind::Let)
        } else if same_text(s, "mut") {
            Some(TokenKind::Mut)
        } else if same_text(s, "fn") {
            Some(TokenKind::Fn)
        } else if same_text(s, "return") {
            Some(TokenKind::Return)
        } else if same_text(s, "if") {
            Some(TokenKind::If)
        } else if same_text(s, "else") {
            Some(TokenKind::Else)
        } else if same_text(s, "while") {
            Some(TokenKind::While)
        } else if same_text(s, "for") {
            Some(TokenKind::For)
        } else if same_text(s, "in") {
            Some(TokenKind::In)
        } else if same_text(s, "break") {
            Some(TokenKind::Break)
        } else if same_text(s, "continue") {
            Some(TokenKind::Continue)
        } else if same_text(s, "true") {
            Some(TokenKind::True)
        } else if same_text(s, "false") {
            Some(TokenKind::False)
        } else if same_text(s, "struct") {
            Some(TokenKind::Struct)
        } else if same_text(s, "enum") {
            Some(TokenKind::Enum)
        } else if same_text(s, "match") {
            Some(TokenKind::Match)
        } else if same_text(s, "pub") {
            Some(TokenKind::Pub)
        } else if same_text(s, "const") {
            Some(TokenKind::Const)
        } else if same_text(s, "as") {
            Some(TokenKind::As)
        } else if same_text(s, "impl") {
            Some(TokenKind::Impl)
        } else if same_text(s, "trait") {
            Some(TokenKind::Trait)
        } else if same_text(s, "mod") {
            Some(TokenKind::Mod)
        } else if same_text(s, "use") {
            Some(TokenKind::Use)
        } else if same_text(s, "dyn") {
            Some(TokenKind::Dyn)
        } else {
            None
        }
    }
}

} // verus!

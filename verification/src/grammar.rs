//! The grammar: what a list of tokens reads as, and where it is refused.

use vstd::prelude::*;

use crate::ast::{BinOp, UnOp, Visibility};
use crate::lexer::TokenV;
use crate::text::dec_int;
use crate::token::{Span, TokenKind, TokenKindV};
use crate::tree::{Label, Tree, absent, leaf, list, no_span, node};

verus! {

/// How deeply constructs may stand in one another: as deeply as can be counted.
pub const NESTING_LIMIT: usize = usize::MAX;

/// Where a reader stands: the tokens, the position of the next one, and
/// whether a brace may open a block or a struct literal there.
pub struct Input {
    pub toks: Seq<TokenV>,
    pub pos: nat,
    pub no_block: bool,
    pub no_struct: bool,
}

/// What was found wrong, and where.
pub struct Fail {
    pub message: Seq<char>,
    pub span: Span,
}

/// Where the reader stands afterwards, with what was read or what was wrong.
pub type Parsed = (Input, Result<Tree, Fail>);

/// The sorts of parts that come in rows.
pub enum Part {
    Name,
    Bound,
    Generic,
    Param,
    Field,
    Variant,
    Type,
    Pattern,
    Alternative,
    PatternField,
    Arg,
    Init,
    Statement,
    Item,
    Arm,
    /// A member of an impl with these type parameters.
    ImplMember(Seq<Tree>),
    TraitMember,
}

pub open spec fn input_wf(p: Input) -> bool {
    &&& p.toks.len() > 0
    &&& p.toks.last().kind == TokenKindV::Plain(TokenKind::Eof)
    &&& p.pos <= p.toks.len()
}

pub open spec fn input_of(toks: Seq<TokenV>) -> Input {
    Input { toks, pos: 0, no_block: false, no_struct: false }
}

/// The token to read next; the last one again at the end.
pub open spec fn tok_at(p: Input) -> TokenV {
    if p.pos < p.toks.len() {
        p.toks[p.pos as int]
    } else {
        p.toks.last()
    }
}

pub open spec fn tok_span(p: Input) -> Span {
    tok_at(p).span
}

/// Whether the next token is this one, which carries no data.
pub open spec fn tok_is(p: Input, k: TokenKind) -> bool {
    tok_at(p).kind == TokenKindV::Plain(k)
}

pub open spec fn bumped(p: Input) -> Input {
    if p.pos < p.toks.len() {
        Input { pos: p.pos + 1, ..p }
    } else {
        p
    }
}

/// How much is left to read. A `>>` counts for more than another token: it is
/// read in two steps where it closes two lists.
pub open spec fn tokens_left(p: Input) -> nat {
    if p.pos < p.toks.len() {
        (2 * (p.toks.len() - p.pos) + if p.toks[p.pos as int].kind == TokenKindV::Plain(TokenKind::Shr) {
            1int
        } else {
            0int
        }) as nat
    } else {
        0
    }
}

pub open spec fn span_from_to(a: Span, b: Span) -> Span {
    Span { start: a.start, end: b.end }
}

// ---- messages ----

/// The variant's name of a kind that carries no data.
pub open spec fn kind_name(k: TokenKind) -> Seq<char> {
    match k {
        TokenKind::Let => "Let"@,
        TokenKind::Mut => "Mut"@,
        TokenKind::Fn => "Fn"@,
        TokenKind::Return => "Return"@,
        TokenKind::If => "If"@,
        TokenKind::Else => "Else"@,
        TokenKind::While => "While"@,
        TokenKind::For => "For"@,
        TokenKind::In => "In"@,
        TokenKind::Break => "Break"@,
        TokenKind::Continue => "Continue"@,
        TokenKind::True => "True"@,
        TokenKind::False => "False"@,
        TokenKind::Struct => "Struct"@,
        TokenKind::Enum => "Enum"@,
        TokenKind::Match => "Match"@,
        TokenKind::Pub => "Pub"@,
        TokenKind::Const => "Const"@,
        TokenKind::As => "As"@,
        TokenKind::Impl => "Impl"@,
        TokenKind::Trait => "Trait"@,
        TokenKind::Mod => "Mod"@,
        TokenKind::Use => "Use"@,
        TokenKind::Dyn => "Dyn"@,
        TokenKind::Plus => "Plus"@,
        TokenKind::Minus => "Minus"@,
        TokenKind::Star => "Star"@,
        TokenKind::Slash => "Slash"@,
        TokenKind::Percent => "Percent"@,
        TokenKind::Eq => "Eq"@,
        TokenKind::PlusEq => "PlusEq"@,
        TokenKind::MinusEq => "MinusEq"@,
        TokenKind::StarEq => "StarEq"@,
        TokenKind::SlashEq => "SlashEq"@,
        TokenKind::PercentEq => "PercentEq"@,
        TokenKind::AmpEq => "AmpEq"@,
        TokenKind::PipeEq => "PipeEq"@,
        TokenKind::CaretEq => "CaretEq"@,
        TokenKind::ShlEq => "ShlEq"@,
        TokenKind::ShrEq => "ShrEq"@,
        TokenKind::EqEq => "EqEq"@,
        TokenKind::BangEq => "BangEq"@,
        TokenKind::Lt => "Lt"@,
        TokenKind::Gt => "Gt"@,
        TokenKind::LtEq => "LtEq"@,
        TokenKind::GtEq => "GtEq"@,
        TokenKind::AmpAmp => "AmpAmp"@,
        TokenKind::PipePipe => "PipePipe"@,
        TokenKind::Bang => "Bang"@,
        TokenKind::Amp => "Amp"@,
        TokenKind::Pipe => "Pipe"@,
        TokenKind::Caret => "Caret"@,
        TokenKind::Tilde => "Tilde"@,
        TokenKind::Shl => "Shl"@,
        TokenKind::Shr => "Shr"@,
        TokenKind::Arrow => "Arrow"@,
        TokenKind::FatArrow => "FatArrow"@,
        TokenKind::Dot => "Dot"@,
        TokenKind::DotDot => "DotDot"@,
        TokenKind::DotDotEq => "DotDotEq"@,
        TokenKind::Colon => "Colon"@,
        TokenKind::ColonColon => "ColonColon"@,
        TokenKind::Question => "Question"@,
        TokenKind::LParen => "LParen"@,
        TokenKind::RParen => "RParen"@,
        TokenKind::LBrace => "LBrace"@,
        TokenKind::RBrace => "RBrace"@,
        TokenKind::LBracket => "LBracket"@,
        TokenKind::RBracket => "RBracket"@,
        TokenKind::Comma => "Comma"@,
        TokenKind::Semi => "Semi"@,
        TokenKind::Eof => "Eof"@,
        _ => ""@,
    }
}

/// A token kind in a message.
pub open spec fn described(k: TokenKindV) -> Seq<char> {
    match k {
        TokenKindV::Ident(s) => "identifier `"@ + s + "`"@,
        TokenKindV::Int(v, _) => "integer `"@ + dec_int(v as int) + "`"@,
        TokenKindV::Float(s, _) => "float `"@ + s + "`"@,
        TokenKindV::Str(_) => "string literal"@,
        TokenKindV::Char(_) => "char literal"@,
        TokenKindV::Plain(k) => if k is Eof {
            "end of input"@
        } else {
            "`"@ + kind_name(k) + "`"@
        },
    }
}

/// What was expected instead of the next token.
pub open spec fn expected_here(p: Input, what: Seq<char>) -> Fail {
    Fail {
        message: "expected "@ + what + ", found "@ + described(tok_at(p).kind),
        span: tok_span(p),
    }
}

pub open spec fn nested_too_deeply(p: Input) -> Fail {
    Fail { message: "code is nested too deeply"@, span: tok_span(p) }
}

// ---- single tokens ----

pub open spec fn read_token(p: Input, k: TokenKind, what: Seq<char>) -> (Input, Result<Span, Fail>) {
    if tok_is(p, k) {
        (bumped(p), Ok(tok_span(p)))
    } else {
        (p, Err(expected_here(p, what)))
    }
}

pub open spec fn read_name(p: Input) -> Parsed {
    match tok_at(p).kind {
        TokenKindV::Ident(s) => (bumped(p), Ok(leaf(Label::Name(s), tok_span(p)))),
        _ => (p, Err(expected_here(p, "identifier"@))),
    }
}

/// One closing `>` of a type-argument list. A `>>` is split in place: its
/// second half stays for the enclosing list.
pub open spec fn read_generic_close(p: Input) -> (Input, Result<Span, Fail>) {
    let sp = tok_span(p);
    let mid = wrapped_next(sp.start);
    if tok_is(p, TokenKind::Gt) {
        (bumped(p), Ok(sp))
    } else if tok_is(p, TokenKind::Shr) {
        let half = TokenV {
            kind: TokenKindV::Plain(TokenKind::Gt),
            span: Span { start: mid, end: sp.end },
        };
        (Input { toks: p.toks.update(p.pos as int, half), ..p }, Ok(Span { start: sp.start, end: mid }))
    } else {
        (p, Err(expected_here(p, "`>`"@)))
    }
}

/// The offset after this one; the largest is followed by zero.
pub open spec fn wrapped_next(n: usize) -> usize {
    if n < usize::MAX {
        (n + 1) as usize
    } else {
        0
    }
}

pub open spec fn read_array_length(p: Input) -> (Input, Result<usize, Fail>) {
    match tok_at(p).kind {
        TokenKindV::Int(n, _) if n >= 0 => (bumped(p), Ok(n as usize)),
        _ => (p, Err(Fail { message: "expected a non-negative array length"@, span: tok_span(p) })),
    }
}

pub open spec fn visibility_at(p: Input) -> Visibility {
    if tok_is(p, TokenKind::Pub) {
        Visibility::Pub
    } else {
        Visibility::Private
    }
}

pub open spec fn past_visibility(p: Input) -> Input {
    if tok_is(p, TokenKind::Pub) {
        bumped(p)
    } else {
        p
    }
}

/// The literal that a token is, if it is one.
pub open spec fn literal_of(k: TokenKindV) -> Option<Label> {
    match k {
        TokenKindV::Int(v, t) => Some(Label::Int(v, t)),
        TokenKindV::Float(s, t) => Some(Label::Float(s, t)),
        TokenKindV::Str(s) => Some(Label::Str(s)),
        TokenKindV::Char(c) => Some(Label::Char(c)),
        TokenKindV::Plain(TokenKind::True) => Some(Label::Bool(true)),
        TokenKindV::Plain(TokenKind::False) => Some(Label::Bool(false)),
        _ => None,
    }
}

pub open spec fn starts_literal(k: TokenKindV) -> bool {
    literal_of(k) is Some
}

pub open spec fn read_literal(p: Input) -> (Input, Result<(Label, Span), Fail>) {
    match literal_of(tok_at(p).kind) {
        Some(l) => (bumped(p), Ok((l, tok_span(p)))),
        None => (p, Err(expected_here(p, "literal"@))),
    }
}

/// The negation of a number.
pub open spec fn negated_literal(l: Label) -> Label {
    match l {
        Label::Int(v, t) => Label::Int(
            if v == i64::MIN {
                v
            } else {
                (-v) as i64
            },
            t,
        ),
        Label::Float(s, t) => Label::Float("-"@ + s, t),
        l => l,
    }
}

/// Whether an item may begin with this token.
pub open spec fn starts_item(k: TokenKindV) -> bool {
    match k {
        TokenKindV::Plain(TokenKind::Fn) => true,
        TokenKindV::Plain(TokenKind::Struct) => true,
        TokenKindV::Plain(TokenKind::Enum) => true,
        TokenKindV::Plain(TokenKind::Const) => true,
        TokenKindV::Plain(TokenKind::Pub) => true,
        TokenKindV::Plain(TokenKind::Impl) => true,
        TokenKindV::Plain(TokenKind::Trait) => true,
        TokenKindV::Plain(TokenKind::Mod) => true,
        TokenKindV::Plain(TokenKind::Use) => true,
        _ => false,
    }
}

pub open spec fn starts_postfix(k: TokenKindV) -> bool {
    match k {
        TokenKindV::Plain(TokenKind::LParen) => true,
        TokenKindV::Plain(TokenKind::LBracket) => true,
        TokenKindV::Plain(TokenKind::Dot) => true,
        TokenKindV::Plain(TokenKind::Question) => true,
        _ => false,
    }
}

/// Whether a statement of this expression needs no semicolon.
pub open spec fn ends_in_block(l: Label) -> bool {
    l is If || l is While || l is For || l is Match || l is BlockExpr
}

// ---- operators ----

#[derive(Clone, Copy)]
pub enum InfixKind {
    BinOp(BinOp),
    Assign,
    AssignOp(BinOp),
    Cast,
    /// `..` (false) or `..=` (true).
    Range(bool),
}

/// An infix operator with how tightly it binds to its left and to its right:
/// left-associative where the left is the smaller.
#[derive(Clone, Copy)]
pub struct InfixOp {
    pub kind: InfixKind,
    pub left: u8,
    pub right: u8,
}

pub open spec fn prefix_op(k: TokenKindV) -> Option<UnOp> {
    match k {
        TokenKindV::Plain(TokenKind::Minus) => Some(UnOp::Neg),
        TokenKindV::Plain(TokenKind::Bang) => Some(UnOp::Not),
        TokenKindV::Plain(TokenKind::Tilde) => Some(UnOp::BitNot),
        _ => None,
    }
}

pub open spec fn left_op(op: BinOp, left: u8) -> Option<InfixOp> {
    Some(InfixOp { kind: InfixKind::BinOp(op), left, right: (left + 1) as u8 })
}

pub open spec fn assign_op(op: BinOp) -> Option<InfixOp> {
    Some(InfixOp { kind: InfixKind::AssignOp(op), left: 2, right: 1 })
}

/// Assignment binds the loosest, and to the right; then come ranges, the
/// logical operators, comparisons, the bitwise operators, shifts, sums,
/// products and casts, each binding to the left.
pub open spec fn infix_op(k: TokenKindV) -> Option<InfixOp> {
    match k {
        TokenKindV::Plain(k) => match k {
            TokenKind::Eq => Some(InfixOp { kind: InfixKind::Assign, left: 2, right: 1 }),
            TokenKind::PlusEq => assign_op(BinOp::Add),
            TokenKind::MinusEq => assign_op(BinOp::Sub),
            TokenKind::StarEq => assign_op(BinOp::Mul),
            TokenKind::SlashEq => assign_op(BinOp::Div),
            TokenKind::PercentEq => assign_op(BinOp::Mod),
            TokenKind::DotDot => Some(InfixOp { kind: InfixKind::Range(false), left: 3, right: 4 }),
            TokenKind::DotDotEq => Some(InfixOp { kind: InfixKind::Range(true), left: 3, right: 4 }),
            TokenKind::PipePipe => left_op(BinOp::Or, 5),
            TokenKind::AmpAmp => left_op(BinOp::And, 7),
            TokenKind::EqEq => left_op(BinOp::Eq, 9),
            TokenKind::BangEq => left_op(BinOp::Ne, 9),
            TokenKind::Lt => left_op(BinOp::Lt, 9),
            TokenKind::Gt => left_op(BinOp::Gt, 9),
            TokenKind::LtEq => left_op(BinOp::Le, 9),
            TokenKind::GtEq => left_op(BinOp::Ge, 9),
            TokenKind::Pipe => left_op(BinOp::BitOr, 11),
            TokenKind::Caret => left_op(BinOp::BitXor, 13),
            TokenKind::Amp => left_op(BinOp::BitAnd, 15),
            TokenKind::Shl => left_op(BinOp::Shl, 17),
            TokenKind::Shr => left_op(BinOp::Shr, 17),
            TokenKind::Plus => left_op(BinOp::Add, 19),
            TokenKind::Minus => left_op(BinOp::Sub, 19),
            TokenKind::Star => left_op(BinOp::Mul, 21),
            TokenKind::Slash => left_op(BinOp::Div, 21),
            TokenKind::Percent => left_op(BinOp::Mod, 21),
            TokenKind::As => Some(InfixOp { kind: InfixKind::Cast, left: 23, right: 24 }),
            _ => None,
        },
        _ => None,
    }
}

/// An operator applied to its operands.
pub open spec fn applied_infix(k: InfixKind, lhs: Tree, rhs: Tree) -> Tree {
    let label = match k {
        InfixKind::BinOp(op) => Label::Binary(op),
        InfixKind::Assign => Label::Assign,
        InfixKind::AssignOp(op) => Label::AssignOp(op),
        InfixKind::Cast => Label::Cast,
        InfixKind::Range(inclusive) => Label::Range(inclusive),
    };
    node(label, span_from_to(lhs.span, rhs.span), seq![lhs, rhs])
}

// ---- members of impls and traits ----

/// The associated types among the members.
pub open spec fn member_types(ms: Seq<Tree>) -> Seq<Tree>
    decreases ms.len(),
{
    if ms.len() == 0 {
        seq![]
    } else if ms.last().label is Binding || ms.last().label is AssocType {
        member_types(ms.drop_last()).push(ms.last())
    } else {
        member_types(ms.drop_last())
    }
}

/// The methods among the members.
pub open spec fn member_fns(ms: Seq<Tree>) -> Seq<Tree>
    decreases ms.len(),
{
    if ms.len() == 0 {
        seq![]
    } else if ms.last().label is Binding || ms.last().label is AssocType {
        member_fns(ms.drop_last())
    } else {
        member_fns(ms.drop_last()).push(ms.last())
    }
}

/// A function with type parameters put before its own.
pub open spec fn with_generics(gs: Seq<Tree>, f: Tree) -> Tree {
    Tree { parts: f.parts.update(1, list(gs + f.parts[1].parts)), ..f }
}

// ---- constructs ----

/// Several parts of one sort, each followed by a separator or the last, up to a
/// closing token or the end of the input.
pub open spec fn read_until(
    p: Input,
    part: Part,
    close: TokenKind,
    d: nat,
    acc: Seq<Tree>,
) -> (Input, Result<Seq<Tree>, Fail>)
    decreases d, 2 + tokens_left(p),
{
    if d == 0 {
        (p, Err(nested_too_deeply(p)))
    } else if tok_is(p, close) || tok_is(p, TokenKind::Eof) {
        (p, Ok(acc))
    } else {
        let p0 = p;
        match read_element(p, part, (d - 1) as nat) {
            (p, Err(e)) => (p, Err(e)),
            (p, Ok(t)) => {
                if tok_is(p, TokenKind::Comma) && tokens_left(bumped(p)) < tokens_left(p0) {
                    read_until(bumped(p), part, close, d, acc.push(t))
                } else {
                    (p, Ok(acc.push(t)))
                }
            },
        }
    }
}

/// One or more parts of one sort, with a separator between two of them.
pub open spec fn read_chain(
    p: Input,
    part: Part,
    sep: TokenKind,
    d: nat,
    acc: Seq<Tree>,
) -> (Input, Result<Seq<Tree>, Fail>)
    decreases d, 2 + tokens_left(p),
{
    if d == 0 {
        (p, Err(nested_too_deeply(p)))
    } else {
        let p0 = p;
        match read_element(p, part, (d - 1) as nat) {
            (p, Err(e)) => (p, Err(e)),
            (p, Ok(t)) => {
                if tok_is(p, sep) && tokens_left(bumped(p)) < tokens_left(p0) {
                    read_chain(bumped(p), part, sep, d, acc.push(t))
                } else {
                    (p, Ok(acc.push(t)))
                }
            },
        }
    }
}

/// Several parts of one sort, up to a closing brace or the end of the input.
pub open spec fn read_within(p: Input, part: Part, d: nat, acc: Seq<Tree>) -> (Input, Result<Seq<Tree>, Fail>)
    decreases d, 2 + tokens_left(p),
{
    if d == 0 {
        (p, Err(nested_too_deeply(p)))
    } else if tok_is(p, TokenKind::RBrace) || tok_is(p, TokenKind::Eof) {
        (p, Ok(acc))
    } else {
        let p0 = p;
        match read_element(p, part, (d - 1) as nat) {
            (p, Err(e)) => (p, Err(e)),
            (p, Ok(t)) => {
                if tokens_left(p) < tokens_left(p0) {
                    read_within(p, part, d, acc.push(t))
                } else {
                    (p, Ok(acc.push(t)))
                }
            },
        }
    }
}

pub open spec fn read_element(p: Input, part: Part, d: nat) -> Parsed
    decreases d, 1int,
{
    match part {
        Part::Name => read_name(p),
        Part::Bound => read_bound(p),
        Part::Generic => read_generic(p, d),
        Part::Param => read_param(p, d),
        Part::Field => read_field(p, d),
        Part::Variant => read_variant(p, d),
        Part::Type => read_type(p, d),
        Part::Pattern => read_pattern(p, d),
        Part::Alternative => read_pattern_atom(p, d),
        Part::PatternField => read_pattern_field(p, d),
        Part::Arg => read_expr(p, d),
        Part::Init => read_init(p, d),
        Part::Statement => read_stmt(p, d),
        Part::Item => read_item(p, d),
        Part::Arm => read_arm(p, d),
        Part::ImplMember(gs) => read_impl_member(p, gs, d),
        Part::TraitMember => read_trait_member(p, d),
    }
}

/// A trait that bounds a type parameter: a path of one name.
pub open spec fn read_bound(p: Input) -> Parsed {
    match read_name(p) {
        (p, Err(e)) => (p, Err(e)),
        (p, Ok(n)) => {
            (p, Ok(node(Label::Path, n.span, seq![list(seq![n]), list(seq![])])))
        },
    }
}

/// `T` or `T: A + B`.
pub open spec fn read_generic(p: Input, d: nat) -> Parsed
    decreases d, 0int,
{
    if d == 0 {
        (p, Err(nested_too_deeply(p)))
    } else {
        match read_name(p) {
            (p, Err(e)) => (p, Err(e)),
            (p, Ok(n)) => {
                if tok_is(p, TokenKind::Colon) {
                    match read_chain(bumped(p), Part::Bound, TokenKind::Plus, (d - 1) as nat, seq![]) {
                        (p, Err(e)) => (p, Err(e)),
                        (p, Ok(bs)) => {
                            (p, Ok(node(Label::Generic, n.span, seq![n, list(bs)])))
                        },
                    }
                } else {
                    (p, Ok(node(Label::Generic, n.span, seq![n, list(seq![])])))
                }
            },
        }
    }
}

/// The type parameters after an item's name; none when there is no `<`.
pub open spec fn read_generics(p: Input, d: nat) -> (Input, Result<Seq<Tree>, Fail>)
    decreases d, 0int,
{
    if d == 0 {
        (p, Err(nested_too_deeply(p)))
    } else if !tok_is(p, TokenKind::Lt) {
        (p, Ok(seq![]))
    } else {
        let p = bumped(p);
        if tok_is(p, TokenKind::Gt) {
            match read_token(p, TokenKind::Gt, "`>`"@) {
                (p, Err(e)) => (p, Err(e)),
                (p, Ok(_)) => {
                    (p, Ok(seq![]))
                },
            }
        } else {
            match read_chain(p, Part::Generic, TokenKind::Comma, (d - 1) as nat, seq![]) {
                (p, Err(e)) => (p, Err(e)),
                (p, Ok(gs)) => {
                    match read_token(p, TokenKind::Gt, "`>`"@) {
                        (p, Err(e)) => (p, Err(e)),
                        (p, Ok(_)) => {
                            (p, Ok(gs))
                        },
                    }
                },
            }
        }
    }
}

/// `name: Type`.
pub open spec fn read_param(p: Input, d: nat) -> Parsed
    decreases d, 0int,
{
    if d == 0 {
        (p, Err(nested_too_deeply(p)))
    } else {
        match read_name(p) {
            (p, Err(e)) => (p, Err(e)),
            (p, Ok(n)) => {
                match read_token(p, TokenKind::Colon, "`:`"@) {
                    (p, Err(e)) => (p, Err(e)),
                    (p, Ok(_)) => {
                        match read_type(p, (d - 1) as nat) {
                            (p, Err(e)) => (p, Err(e)),
                            (p, Ok(t)) => {
                                (p, Ok(node(Label::Param, span_from_to(n.span, t.span), seq![n, t])))
                            },
                        }
                    },
                }
            },
        }
    }
}

pub open spec fn read_field(p: Input, d: nat) -> Parsed
    decreases d, 0int,
{
    if d == 0 {
        (p, Err(nested_too_deeply(p)))
    } else {
        let start = tok_span(p);
        let vis = visibility_at(p);
        let p = past_visibility(p);
        match read_name(p) {
            (p, Err(e)) => (p, Err(e)),
            (p, Ok(n)) => {
                match read_token(p, TokenKind::Colon, "`:`"@) {
                    (p, Err(e)) => (p, Err(e)),
                    (p, Ok(_)) => {
                        match read_type(p, (d - 1) as nat) {
                            (p, Err(e)) => (p, Err(e)),
                            (p, Ok(t)) => {
                                (p, Ok(node(Label::Field(vis), span_from_to(start, t.span), seq![n, t])))
                            },
                        }
                    },
                }
            },
        }
    }
}

pub open spec fn read_variant(p: Input, d: nat) -> Parsed
    decreases d, 0int,
{
    if d == 0 {
        (p, Err(nested_too_deeply(p)))
    } else {
        match read_name(p) {
            (p, Err(e)) => (p, Err(e)),
            (p, Ok(n)) => {
                if tok_is(p, TokenKind::LParen) {
                    match read_until(bumped(p), Part::Type, TokenKind::RParen, (d - 1) as nat, seq![]) {
                        (p, Err(e)) => (p, Err(e)),
                        (p, Ok(ts)) => {
                            match read_token(p, TokenKind::RParen, "`)`"@) {
                                (p, Err(e)) => (p, Err(e)),
                                (p, Ok(close)) => {
                                    (p, Ok(node(Label::TupleVariant, span_from_to(n.span, close), seq![n, list(ts)])))
                                },
                            }
                        },
                    }
                } else if tok_is(p, TokenKind::LBrace) {
                    match read_until(bumped(p), Part::Field, TokenKind::RBrace, (d - 1) as nat, seq![]) {
                        (p, Err(e)) => (p, Err(e)),
                        (p, Ok(fs)) => {
                            match read_token(p, TokenKind::RBrace, "`}`"@) {
                                (p, Err(e)) => (p, Err(e)),
                                (p, Ok(close)) => {
                                    (p, Ok(node(Label::NamedVariant, span_from_to(n.span, close), seq![n, list(fs)])))
                                },
                            }
                        },
                    }
                } else {
                    (p, Ok(node(Label::UnitVariant, n.span, seq![n])))
                }
            },
        }
    }
}

/// `-> Type`, or nothing.
pub open spec fn read_return_type(p: Input, d: nat) -> Parsed
    decreases d, 0int,
{
    if d == 0 {
        (p, Err(nested_too_deeply(p)))
    } else if tok_is(p, TokenKind::Arrow) {
        read_type(bumped(p), (d - 1) as nat)
    } else {
        (p, Ok(absent()))
    }
}

/// A parameter list in parentheses.
pub open spec fn read_params(p: Input, d: nat) -> (Input, Result<Seq<Tree>, Fail>)
    decreases d, 0int,
{
    if d == 0 {
        (p, Err(nested_too_deeply(p)))
    } else {
        match read_token(p, TokenKind::LParen, "`(`"@) {
            (p, Err(e)) => (p, Err(e)),
            (p, Ok(_)) => {
                match read_until(p, Part::Param, TokenKind::RParen, (d - 1) as nat, seq![]) {
                    (p, Err(e)) => (p, Err(e)),
                    (p, Ok(ps)) => {
                        match read_token(p, TokenKind::RParen, "`)`"@) {
                            (p, Err(e)) => (p, Err(e)),
                            (p, Ok(_)) => {
                                (p, Ok(ps))
                            },
                        }
                    },
                }
            },
        }
    }
}

pub open spec fn read_fn(p: Input, vis: Visibility, start: Span, d: nat) -> Parsed
    decreases d, 0int,
{
    if d == 0 {
        (p, Err(nested_too_deeply(p)))
    } else {
        match read_token(p, TokenKind::Fn, "`fn`"@) {
            (p, Err(e)) => (p, Err(e)),
            (p, Ok(_)) => {
                match read_name(p) {
                    (p, Err(e)) => (p, Err(e)),
                    (p, Ok(n)) => {
                        match read_generics(p, (d - 1) as nat) {
                            (p, Err(e)) => (p, Err(e)),
                            (p, Ok(gs)) => {
                                match read_params(p, (d - 1) as nat) {
                                    (p, Err(e)) => (p, Err(e)),
                                    (p, Ok(ps)) => {
                                        match read_return_type(p, (d - 1) as nat) {
                                            (p, Err(e)) => (p, Err(e)),
                                            (p, Ok(r)) => {
                                                match read_block(p, (d - 1) as nat) {
                                                    (p, Err(e)) => (p, Err(e)),
                                                    (p, Ok(b)) => {
                                                        (p, Ok(node(Label::Fn(vis), span_from_to(start, b.span), seq![n, list(gs), list(ps), r, b])))
                                                    },
                                                }
                                            },
                                        }
                                    },
                                }
                            },
                        }
                    },
                }
            },
        }
    }
}

pub open spec fn read_struct(p: Input, vis: Visibility, start: Span, d: nat) -> Parsed
    decreases d, 0int,
{
    if d == 0 {
        (p, Err(nested_too_deeply(p)))
    } else {
        match read_token(p, TokenKind::Struct, "`struct`"@) {
            (p, Err(e)) => (p, Err(e)),
            (p, Ok(_)) => {
                match read_name(p) {
                    (p, Err(e)) => (p, Err(e)),
                    (p, Ok(n)) => {
                        match read_generics(p, (d - 1) as nat) {
                            (p, Err(e)) => (p, Err(e)),
                            (p, Ok(gs)) => {
                                match read_token(p, TokenKind::LBrace, "`{`"@) {
                                    (p, Err(e)) => (p, Err(e)),
                                    (p, Ok(_)) => {
                                        match read_until(p, Part::Field, TokenKind::RBrace, (d - 1) as nat, seq![]) {
                                            (p, Err(e)) => (p, Err(e)),
                                            (p, Ok(fs)) => {
                                                match read_token(p, TokenKind::RBrace, "`}`"@) {
                                                    (p, Err(e)) => (p, Err(e)),
                                                    (p, Ok(close)) => {
                                                        (p, Ok(node(Label::Struct(vis), span_from_to(start, close), seq![n, list(gs), list(fs)])))
                                                    },
                                                }
                                            },
                                        }
                                    },
                                }
                            },
                        }
                    },
                }
            },
        }
    }
}

pub open spec fn read_enum(p: Input, vis: Visibility, start: Span, d: nat) -> Parsed
    decreases d, 0int,
{
    if d == 0 {
        (p, Err(nested_too_deeply(p)))
    } else {
        match read_token(p, TokenKind::Enum, "`enum`"@) {
            (p, Err(e)) => (p, Err(e)),
            (p, Ok(_)) => {
                match read_name(p) {
                    (p, Err(e)) => (p, Err(e)),
                    (p, Ok(n)) => {
                        match read_generics(p, (d - 1) as nat) {
                            (p, Err(e)) => (p, Err(e)),
                            (p, Ok(gs)) => {
                                match read_token(p, TokenKind::LBrace, "`{`"@) {
                                    (p, Err(e)) => (p, Err(e)),
                                    (p, Ok(_)) => {
                                        match read_until(p, Part::Variant, TokenKind::RBrace, (d - 1) as nat, seq![]) {
                                            (p, Err(e)) => (p, Err(e)),
                                            (p, Ok(vs)) => {
                                                match read_token(p, TokenKind::RBrace, "`}`"@) {
                                                    (p, Err(e)) => (p, Err(e)),
                                                    (p, Ok(close)) => {
                                                        (p, Ok(node(Label::Enum(vis), span_from_to(start, close), seq![n, list(gs), list(vs)])))
                                                    },
                                                }
                                            },
                                        }
                                    },
                                }
                            },
                        }
                    },
                }
            },
        }
    }
}

/// A type that has to be a path, and gives that path.
pub open spec fn read_type_path(p: Input, d: nat) -> Parsed
    decreases d, 0int,
{
    if d == 0 {
        (p, Err(nested_too_deeply(p)))
    } else {
        let start = tok_span(p);
        match read_type(p, (d - 1) as nat) {
            (p, Err(e)) => (p, Err(e)),
            (p, Ok(t)) => {
                if t.label is PathType {
                    (p, Ok(t.parts[0]))
                } else {
                    (p, Err(Fail { message: "expected a type name after `impl`"@, span: start }))
                }
            },
        }
    }
}

pub open spec fn read_impl(p: Input, start: Span, d: nat) -> Parsed
    decreases d, 0int,
{
    if d == 0 {
        (p, Err(nested_too_deeply(p)))
    } else {
        match read_token(p, TokenKind::Impl, "`impl`"@) {
            (p, Err(e)) => (p, Err(e)),
            (p, Ok(_)) => {
                match read_generics(p, (d - 1) as nat) {
                    (p, Err(e)) => (p, Err(e)),
                    (p, Ok(gs)) => {
                        match read_type_path(p, (d - 1) as nat) {
                            (p, Err(e)) => (p, Err(e)),
                            (p, Ok(first)) => {
                                if tok_is(p, TokenKind::For) {
                                    match read_type_path(bumped(p), (d - 1) as nat) {
                                        (p, Err(e)) => (p, Err(e)),
                                        (p, Ok(second)) => {
                                            read_impl_body(p, start, gs, first, second, (d - 1) as nat)
                                        },
                                    }
                                } else {
                                    read_impl_body(p, start, gs, absent(), first, (d - 1) as nat)
                                }
                            },
                        }
                    },
                }
            },
        }
    }
}

pub open spec fn read_impl_body(p: Input, start: Span, gs: Seq<Tree>, of: Tree, ty: Tree, d: nat) -> Parsed
    decreases d, 0int,
{
    if d == 0 {
        (p, Err(nested_too_deeply(p)))
    } else {
        match read_token(p, TokenKind::LBrace, "`{`"@) {
            (p, Err(e)) => (p, Err(e)),
            (p, Ok(_)) => {
                match read_within(p, Part::ImplMember(gs), (d - 1) as nat, seq![]) {
                    (p, Err(e)) => (p, Err(e)),
                    (p, Ok(ms)) => {
                        match read_token(p, TokenKind::RBrace, "`}`"@) {
                            (p, Err(e)) => (p, Err(e)),
                            (p, Ok(close)) => {
                                (p, Ok(node(Label::Impl, span_from_to(start, close), seq![list(gs), of, ty, list(member_types(ms)), list(member_fns(ms))])))
                            },
                        }
                    },
                }
            },
        }
    }
}

/// A member of an impl: a type for an associated type, or a method.
pub open spec fn read_impl_member(p: Input, gs: Seq<Tree>, d: nat) -> Parsed
    decreases d, 0int,
{
    if d == 0 {
        (p, Err(nested_too_deeply(p)))
    } else if tok_at(p).kind == TokenKindV::Ident("type"@) {
        read_binding(p, (d - 1) as nat)
    } else {
        read_method(p, gs, (d - 1) as nat)
    }
}

/// `type Name = Type;`.
pub open spec fn read_binding(p: Input, d: nat) -> Parsed
    decreases d, 0int,
{
    if d == 0 {
        (p, Err(nested_too_deeply(p)))
    } else {
        let start = tok_span(p);
        match read_name(bumped(p)) {
            (p, Err(e)) => (p, Err(e)),
            (p, Ok(n)) => {
                match read_token(p, TokenKind::Eq, "`=`"@) {
                    (p, Err(e)) => (p, Err(e)),
                    (p, Ok(_)) => {
                        match read_type(p, (d - 1) as nat) {
                            (p, Err(e)) => (p, Err(e)),
                            (p, Ok(t)) => {
                                match read_token(p, TokenKind::Semi, "`;`"@) {
                                    (p, Err(e)) => (p, Err(e)),
                                    (p, Ok(close)) => {
                                        (p, Ok(node(Label::Binding, span_from_to(start, close), seq![n, t])))
                                    },
                                }
                            },
                        }
                    },
                }
            },
        }
    }
}

/// A method of an impl: the impl's type parameters come before its own.
pub open spec fn read_method(p: Input, gs: Seq<Tree>, d: nat) -> Parsed
    decreases d, 0int,
{
    if d == 0 {
        (p, Err(nested_too_deeply(p)))
    } else {
        let p = past_visibility(p);
        match read_fn(p, Visibility::Private, tok_span(p), (d - 1) as nat) {
            (p, Err(e)) => (p, Err(e)),
            (p, Ok(f)) => {
                (p, Ok(with_generics(gs, f)))
            },
        }
    }
}

pub open spec fn read_trait(p: Input, vis: Visibility, start: Span, d: nat) -> Parsed
    decreases d, 0int,
{
    if d == 0 {
        (p, Err(nested_too_deeply(p)))
    } else {
        match read_token(p, TokenKind::Trait, "`trait`"@) {
            (p, Err(e)) => (p, Err(e)),
            (p, Ok(_)) => {
                match read_name(p) {
                    (p, Err(e)) => (p, Err(e)),
                    (p, Ok(n)) => {
                        match read_token(p, TokenKind::LBrace, "`{`"@) {
                            (p, Err(e)) => (p, Err(e)),
                            (p, Ok(_)) => {
                                match read_within(p, Part::TraitMember, (d - 1) as nat, seq![]) {
                                    (p, Err(e)) => (p, Err(e)),
                                    (p, Ok(ms)) => {
                                        match read_token(p, TokenKind::RBrace, "`}`"@) {
                                            (p, Err(e)) => (p, Err(e)),
                                            (p, Ok(close)) => {
                                                (p, Ok(node(Label::Trait(vis), span_from_to(start, close), seq![n, list(seq![]), list(seq![]), list(member_types(ms)), list(member_fns(ms))])))
                                            },
                                        }
                                    },
                                }
                            },
                        }
                    },
                }
            },
        }
    }
}

/// A member of a trait: an associated type, or a method's signature.
pub open spec fn read_trait_member(p: Input, d: nat) -> Parsed
    decreases d, 0int,
{
    if d == 0 {
        (p, Err(nested_too_deeply(p)))
    } else if tok_at(p).kind == TokenKindV::Ident("type"@) {
        read_assoc_type(p)
    } else {
        read_signature(p, (d - 1) as nat)
    }
}

/// `type Name;`.
pub open spec fn read_assoc_type(p: Input) -> Parsed {
    let start = tok_span(p);
    match read_name(bumped(p)) {
        (p, Err(e)) => (p, Err(e)),
        (p, Ok(n)) => {
            match read_token(p, TokenKind::Semi, "`;`"@) {
                (p, Err(e)) => (p, Err(e)),
                (p, Ok(close)) => {
                    (p, Ok(node(Label::AssocType, span_from_to(start, close), seq![n])))
                },
            }
        },
    }
}

/// `fn name(params) -> Type;`.
pub open spec fn read_signature(p: Input, d: nat) -> Parsed
    decreases d, 0int,
{
    if d == 0 {
        (p, Err(nested_too_deeply(p)))
    } else {
        let start = tok_span(p);
        match read_token(p, TokenKind::Fn, "`fn`"@) {
            (p, Err(e)) => (p, Err(e)),
            (p, Ok(_)) => {
                match read_name(p) {
                    (p, Err(e)) => (p, Err(e)),
                    (p, Ok(n)) => {
                        match read_params(p, (d - 1) as nat) {
                            (p, Err(e)) => (p, Err(e)),
                            (p, Ok(ps)) => {
                                match read_return_type(p, (d - 1) as nat) {
                                    (p, Err(e)) => (p, Err(e)),
                                    (p, Ok(r)) => {
                                        match read_token(p, TokenKind::Semi, "`;`"@) {
                                            (p, Err(e)) => (p, Err(e)),
                                            (p, Ok(close)) => {
                                                (p, Ok(node(Label::Signature, span_from_to(start, close), seq![n, list(ps), r, absent()])))
                                            },
                                        }
                                    },
                                }
                            },
                        }
                    },
                }
            },
        }
    }
}

pub open spec fn read_mod(p: Input, vis: Visibility, start: Span, d: nat) -> Parsed
    decreases d, 0int,
{
    if d == 0 {
        (p, Err(nested_too_deeply(p)))
    } else {
        match read_token(p, TokenKind::Mod, "`mod`"@) {
            (p, Err(e)) => (p, Err(e)),
            (p, Ok(_)) => {
                match read_name(p) {
                    (p, Err(e)) => (p, Err(e)),
                    (p, Ok(n)) => {
                        match read_token(p, TokenKind::LBrace, "`{`"@) {
                            (p, Err(e)) => (p, Err(e)),
                            (p, Ok(_)) => {
                                match read_within(p, Part::Item, (d - 1) as nat, seq![]) {
                                    (p, Err(e)) => (p, Err(e)),
                                    (p, Ok(members)) => {
                                        match read_token(p, TokenKind::RBrace, "`}`"@) {
                                            (p, Err(e)) => (p, Err(e)),
                                            (p, Ok(close)) => {
                                                (p, Ok(node(Label::Mod(vis), span_from_to(start, close), seq![n, list(members)])))
                                            },
                                        }
                                    },
                                }
                            },
                        }
                    },
                }
            },
        }
    }
}

/// The names after the first one of a `use` path, and whether `::*` ends it.
pub open spec fn read_use_names(p: Input, acc: Seq<Tree>) -> (Input, Result<(Seq<Tree>, bool), Fail>)
    decreases tokens_left(p),
{
    if !tok_is(p, TokenKind::ColonColon) {
        (p, Ok((acc, false)))
    } else if tok_is(bumped(p), TokenKind::Star) {
        (bumped(bumped(p)), Ok((acc, true)))
    } else {
        let p0 = p;
        match read_name(bumped(p)) {
            (p, Err(e)) => (p, Err(e)),
            (p, Ok(n)) => {
                if tokens_left(p) < tokens_left(p0) {
                    read_use_names(p, acc.push(n))
                } else {
                    (p, Ok((acc.push(n), false)))
                }
            },
        }
    }
}

/// `as name`, when the path is no glob.
pub open spec fn read_use_alias(p: Input, glob: bool) -> Parsed {
    if !glob && tok_is(p, TokenKind::As) {
        read_name(bumped(p))
    } else {
        (p, Ok(absent()))
    }
}

pub open spec fn read_use(p: Input, vis: Visibility, start: Span) -> Parsed {
    match read_token(p, TokenKind::Use, "`use`"@) {
        (p, Err(e)) => (p, Err(e)),
        (p, Ok(_)) => {
            match read_name(p) {
                (p, Err(e)) => (p, Err(e)),
                (p, Ok(first)) => {
                    match read_use_names(p, seq![first]) {
                        (p, Err(e)) => (p, Err(e)),
                        (p, Ok(names)) => {
                            match read_use_alias(p, names.1) {
                                (p, Err(e)) => (p, Err(e)),
                                (p, Ok(alias)) => {
                                    match read_token(p, TokenKind::Semi, "`;`"@) {
                                        (p, Err(e)) => (p, Err(e)),
                                        (p, Ok(close)) => {
                                            let path = node(Label::Path, span_from_to(first.span, names.0.last().span), seq![list(names.0), list(seq![])]);
                                            (p, Ok(node(Label::Use(names.1, vis), span_from_to(start, close), seq![path, alias])))
                                        },
                                    }
                                },
                            }
                        },
                    }
                },
            }
        },
    }
}

pub open spec fn read_const(p: Input, vis: Visibility, start: Span, d: nat) -> Parsed
    decreases d, 0int,
{
    if d == 0 {
        (p, Err(nested_too_deeply(p)))
    } else {
        match read_token(p, TokenKind::Const, "`const`"@) {
            (p, Err(e)) => (p, Err(e)),
            (p, Ok(_)) => {
                match read_name(p) {
                    (p, Err(e)) => (p, Err(e)),
                    (p, Ok(n)) => {
                        match read_token(p, TokenKind::Colon, "`:`"@) {
                            (p, Err(e)) => (p, Err(e)),
                            (p, Ok(_)) => {
                                match read_type(p, (d - 1) as nat) {
                                    (p, Err(e)) => (p, Err(e)),
                                    (p, Ok(t)) => {
                                        match read_token(p, TokenKind::Eq, "`=`"@) {
                                            (p, Err(e)) => (p, Err(e)),
                                            (p, Ok(_)) => {
                                                match read_expr(p, (d - 1) as nat) {
                                                    (p, Err(e)) => (p, Err(e)),
                                                    (p, Ok(v)) => {
                                                        match read_token(p, TokenKind::Semi, "`;`"@) {
                                                            (p, Err(e)) => (p, Err(e)),
                                                            (p, Ok(close)) => {
                                                                (p, Ok(node(Label::Const(vis), span_from_to(start, close), seq![n, t, v])))
                                                            },
                                                        }
                                                    },
                                                }
                                            },
                                        }
                                    },
                                }
                            },
                        }
                    },
                }
            },
        }
    }
}

pub open spec fn read_item(p: Input, d: nat) -> Parsed
    decreases d, 0int,
{
    if d == 0 {
        (p, Err(nested_too_deeply(p)))
    } else {
        let start = tok_span(p);
        let vis = visibility_at(p);
        let p = past_visibility(p);
        if tok_is(p, TokenKind::Fn) {
            read_fn(p, vis, start, (d - 1) as nat)
        } else if tok_is(p, TokenKind::Struct) {
            read_struct(p, vis, start, (d - 1) as nat)
        } else if tok_is(p, TokenKind::Enum) {
            read_enum(p, vis, start, (d - 1) as nat)
        } else if tok_is(p, TokenKind::Const) {
            read_const(p, vis, start, (d - 1) as nat)
        } else if tok_is(p, TokenKind::Impl) {
            read_impl(p, start, (d - 1) as nat)
        } else if tok_is(p, TokenKind::Trait) {
            read_trait(p, vis, start, (d - 1) as nat)
        } else if tok_is(p, TokenKind::Mod) {
            read_mod(p, vis, start, (d - 1) as nat)
        } else if tok_is(p, TokenKind::Use) {
            read_use(p, vis, start)
        } else {
            (p, Err(expected_here(p, "item (fn, struct, enum, const)"@)))
        }
    }
}

/// The names of a path.
pub open spec fn read_path(p: Input, d: nat) -> Parsed
    decreases d, 0int,
{
    if d == 0 {
        (p, Err(nested_too_deeply(p)))
    } else {
        match read_chain(p, Part::Name, TokenKind::ColonColon, (d - 1) as nat, seq![]) {
            (p, Err(e)) => (p, Err(e)),
            (p, Ok(ns)) => {
                (p, Ok(node(Label::Path, span_from_to(ns[0].span, ns.last().span), seq![list(ns), list(seq![])])))
            },
        }
    }
}

pub open spec fn read_type(p: Input, d: nat) -> Parsed
    decreases d, 0int,
{
    if d == 0 {
        (p, Err(nested_too_deeply(p)))
    } else if tok_is(p, TokenKind::LBracket) {
        let start = tok_span(p);
        match read_type(bumped(p), (d - 1) as nat) {
            (p, Err(e)) => (p, Err(e)),
            (p, Ok(t)) => {
                match read_token(p, TokenKind::Semi, "`;`"@) {
                    (p, Err(e)) => (p, Err(e)),
                    (p, Ok(_)) => {
                        match read_array_length(p) {
                            (p, Err(e)) => (p, Err(e)),
                            (p, Ok(n)) => {
                                match read_token(p, TokenKind::RBracket, "`]`"@) {
                                    (p, Err(e)) => (p, Err(e)),
                                    (p, Ok(close)) => {
                                        (p, Ok(node(Label::ArrayType(n), span_from_to(start, close), seq![t])))
                                    },
                                }
                            },
                        }
                    },
                }
            },
        }
    } else if tok_is(p, TokenKind::Dyn) {
        match read_path(bumped(p), (d - 1) as nat) {
            (p, Err(e)) => (p, Err(e)),
            (p, Ok(path)) => {
                (p, Ok(node(Label::DynType, path.span, seq![path])))
            },
        }
    } else {
        match read_path(p, (d - 1) as nat) {
            (p, Err(e)) => (p, Err(e)),
            (p, Ok(path)) => {
                if tok_is(p, TokenKind::Lt) {
                    match read_type_args(bumped(p), (d - 1) as nat) {
                        (p, Err(e)) => (p, Err(e)),
                        (p, Ok(args)) => {
                            match read_generic_close(p) {
                                (p, Err(e)) => (p, Err(e)),
                                (p, Ok(close)) => {
                                    let full = node(Label::Path, span_from_to(path.span, close), seq![path.parts[0], list(args)]);
                                    (p, Ok(node(Label::PathType, full.span, seq![full])))
                                },
                            }
                        },
                    }
                } else {
                    (p, Ok(node(Label::PathType, path.span, seq![path])))
                }
            },
        }
    }
}

pub open spec fn read_type_args(p: Input, d: nat) -> (Input, Result<Seq<Tree>, Fail>)
    decreases d, 0int,
{
    if d == 0 {
        (p, Err(nested_too_deeply(p)))
    } else if tok_is(p, TokenKind::Gt) {
        (p, Ok(seq![]))
    } else {
        read_chain(p, Part::Type, TokenKind::Comma, (d - 1) as nat, seq![])
    }
}

/// Alternatives between `|`, or one pattern.
pub open spec fn read_pattern(p: Input, d: nat) -> Parsed
    decreases d, 0int,
{
    if d == 0 {
        (p, Err(nested_too_deeply(p)))
    } else {
        match read_chain(p, Part::Alternative, TokenKind::Pipe, (d - 1) as nat, seq![]) {
            (p, Err(e)) => (p, Err(e)),
            (p, Ok(ps)) => {
                if ps.len() == 1 {
                    (p, Ok(ps[0]))
                } else {
                    (p, Ok(node(Label::OrPattern, span_from_to(ps[0].span, ps.last().span), ps)))
                }
            },
        }
    }
}

pub open spec fn read_pattern_atom(p: Input, d: nat) -> Parsed
    decreases d, 0int,
{
    if d == 0 {
        (p, Err(nested_too_deeply(p)))
    } else if tok_at(p).kind == TokenKindV::Ident("_"@) {
        (bumped(p), Ok(leaf(Label::WildcardPattern, tok_span(p))))
    } else if tok_is(p, TokenKind::Mut) {
        let start = tok_span(p);
        match read_name(bumped(p)) {
            (p, Err(e)) => (p, Err(e)),
            (p, Ok(n)) => {
                (p, Ok(node(Label::NamePattern(true), span_from_to(start, n.span), seq![n])))
            },
        }
    } else if tok_at(p).kind is Ident {
        if tok_is(bumped(p), TokenKind::ColonColon) {
            read_path_pattern(p, (d - 1) as nat)
        } else {
            match read_name(p) {
                (p, Err(e)) => (p, Err(e)),
                (p, Ok(n)) => {
                    (p, Ok(node(Label::NamePattern(false), n.span, seq![n])))
                },
            }
        }
    } else if starts_literal(tok_at(p).kind) || tok_is(p, TokenKind::Minus) {
        match read_pattern_lit(p) {
            (p, Err(e)) => (p, Err(e)),
            (p, Ok(lo)) => {
                if tok_is(p, TokenKind::DotDot) || tok_is(p, TokenKind::DotDotEq) {
                    let inclusive = tok_is(p, TokenKind::DotDotEq);
                    match read_pattern_lit(bumped(p)) {
                        (p, Err(e)) => (p, Err(e)),
                        (p, Ok(hi)) => {
                            (p, Ok(node(Label::RangePattern(inclusive), span_from_to(lo.1, hi.1), seq![leaf(lo.0, no_span()), leaf(hi.0, no_span())])))
                        },
                    }
                } else {
                    (p, Ok(node(Label::LiteralPattern, lo.1, seq![leaf(lo.0, no_span())])))
                }
            },
        }
    } else {
        (p, Err(expected_here(p, "pattern"@)))
    }
}

pub open spec fn read_path_pattern(p: Input, d: nat) -> Parsed
    decreases d, 0int,
{
    if d == 0 {
        (p, Err(nested_too_deeply(p)))
    } else {
        match read_path(p, (d - 1) as nat) {
            (p, Err(e)) => (p, Err(e)),
            (p, Ok(path)) => {
                if tok_is(p, TokenKind::LParen) {
                    match read_pattern_args(bumped(p), (d - 1) as nat) {
                        (p, Err(e)) => (p, Err(e)),
                        (p, Ok(fs)) => {
                            match read_token(p, TokenKind::RParen, "`)`"@) {
                                (p, Err(e)) => (p, Err(e)),
                                (p, Ok(close)) => {
                                    (p, Ok(node(Label::TupleVariantPattern, span_from_to(path.span, close), seq![path, list(fs)])))
                                },
                            }
                        },
                    }
                } else if tok_is(p, TokenKind::LBrace) {
                    match read_until(bumped(p), Part::PatternField, TokenKind::RBrace, (d - 1) as nat, seq![]) {
                        (p, Err(e)) => (p, Err(e)),
                        (p, Ok(fs)) => {
                            match read_token(p, TokenKind::RBrace, "`}`"@) {
                                (p, Err(e)) => (p, Err(e)),
                                (p, Ok(close)) => {
                                    (p, Ok(node(Label::NamedVariantPattern, span_from_to(path.span, close), seq![path, list(fs)])))
                                },
                            }
                        },
                    }
                } else {
                    (p, Ok(node(Label::PathPattern, path.span, seq![path])))
                }
            },
        }
    }
}

pub open spec fn read_pattern_args(p: Input, d: nat) -> (Input, Result<Seq<Tree>, Fail>)
    decreases d, 0int,
{
    if d == 0 {
        (p, Err(nested_too_deeply(p)))
    } else if tok_is(p, TokenKind::RParen) {
        (p, Ok(seq![]))
    } else {
        read_chain(p, Part::Pattern, TokenKind::Comma, (d - 1) as nat, seq![])
    }
}

/// `name: pattern`, or `name` alone, which binds it.
pub open spec fn read_pattern_field(p: Input, d: nat) -> Parsed
    decreases d, 0int,
{
    if d == 0 {
        (p, Err(nested_too_deeply(p)))
    } else {
        match read_name(p) {
            (p, Err(e)) => (p, Err(e)),
            (p, Ok(n)) => {
                if tok_is(p, TokenKind::Colon) {
                    match read_pattern(bumped(p), (d - 1) as nat) {
                        (p, Err(e)) => (p, Err(e)),
                        (p, Ok(q)) => {
                            (p, Ok(node(Label::PatternField, n.span, seq![n, q])))
                        },
                    }
                } else {
                    (p, Ok(node(Label::PatternField, n.span, seq![n, node(Label::NamePattern(false), n.span, seq![n])])))
                }
            },
        }
    }
}

/// A literal, with a `-` before a number.
pub open spec fn read_pattern_lit(p: Input) -> (Input, Result<(Label, Span), Fail>) {
    if tok_is(p, TokenKind::Minus) {
        let start = tok_span(p);
        match read_literal(bumped(p)) {
            (p, Err(e)) => (p, Err(e)),
            (p, Ok(l)) => {
                if l.0 is Int || l.0 is Float {
                    (p, Ok((negated_literal(l.0), span_from_to(start, l.1))))
                } else {
                    (p, Err(Fail { message: "unary `-` is only valid on numeric literals in patterns"@, span: start }))
                }
            },
        }
    } else {
        read_literal(p)
    }
}

pub open spec fn read_block(p: Input, d: nat) -> Parsed
    decreases d, 0int,
{
    if d == 0 {
        (p, Err(nested_too_deeply(p)))
    } else {
        match read_token(p, TokenKind::LBrace, "`{`"@) {
            (p, Err(e)) => (p, Err(e)),
            (p, Ok(lead)) => {
                match read_within(p, Part::Statement, (d - 1) as nat, seq![]) {
                    (p, Err(e)) => (p, Err(e)),
                    (p, Ok(ss)) => {
                        match read_token(p, TokenKind::RBrace, "`}`"@) {
                            (p, Err(e)) => (p, Err(e)),
                            (p, Ok(close)) => {
                                (p, Ok(node(Label::Block, span_from_to(lead, close), ss)))
                            },
                        }
                    },
                }
            },
        }
    }
}

pub open spec fn read_stmt(p: Input, d: nat) -> Parsed
    decreases d, 0int,
{
    if d == 0 {
        (p, Err(nested_too_deeply(p)))
    } else if tok_is(p, TokenKind::Let) {
        read_let_stmt(p, (d - 1) as nat)
    } else if starts_item(tok_at(p).kind) && !tok_is(p, TokenKind::Impl) {
        match read_item(p, (d - 1) as nat) {
            (p, Err(e)) => (p, Err(e)),
            (p, Ok(i)) => {
                (p, Ok(node(Label::ItemStmt, no_span(), seq![i])))
            },
        }
    } else {
        match read_expr(p, (d - 1) as nat) {
            (p, Err(f)) => (p, Err(f)),
            (p, Ok(e)) => {
                if tok_is(p, TokenKind::Semi) {
                    (bumped(p), Ok(node(Label::ExprStmt(true), e.span, seq![e])))
                } else if tok_is(p, TokenKind::RBrace) || ends_in_block(e.label) {
                    (p, Ok(node(Label::ExprStmt(false), e.span, seq![e])))
                } else {
                    (p, Err(expected_here(p, "`;` or `}` after expression"@)))
                }
            },
        }
    }
}

pub open spec fn read_let_type(p: Input, d: nat) -> Parsed
    decreases d, 0int,
{
    if d == 0 {
        (p, Err(nested_too_deeply(p)))
    } else if tok_is(p, TokenKind::Colon) {
        read_type(bumped(p), (d - 1) as nat)
    } else {
        (p, Ok(absent()))
    }
}

pub open spec fn read_let_value(p: Input, d: nat) -> Parsed
    decreases d, 0int,
{
    if d == 0 {
        (p, Err(nested_too_deeply(p)))
    } else if tok_is(p, TokenKind::Eq) {
        read_expr(bumped(p), (d - 1) as nat)
    } else {
        (p, Ok(absent()))
    }
}

pub open spec fn read_let_stmt(p: Input, d: nat) -> Parsed
    decreases d, 0int,
{
    if d == 0 {
        (p, Err(nested_too_deeply(p)))
    } else {
        match read_token(p, TokenKind::Let, "`let`"@) {
            (p, Err(e)) => (p, Err(e)),
            (p, Ok(lead)) => {
                let mutable = tok_is(p, TokenKind::Mut);
                let p = if mutable { bumped(p) } else { p };
                match read_pattern(p, (d - 1) as nat) {
                    (p, Err(e)) => (p, Err(e)),
                    (p, Ok(q)) => {
                        match read_let_type(p, (d - 1) as nat) {
                            (p, Err(e)) => (p, Err(e)),
                            (p, Ok(t)) => {
                                match read_let_value(p, (d - 1) as nat) {
                                    (p, Err(e)) => (p, Err(e)),
                                    (p, Ok(v)) => {
                                        match read_token(p, TokenKind::Semi, "`;`"@) {
                                            (p, Err(e)) => (p, Err(e)),
                                            (p, Ok(close)) => {
                                                (p, Ok(node(Label::Let(mutable), span_from_to(lead, close), seq![q, t, v])))
                                            },
                                        }
                                    },
                                }
                            },
                        }
                    },
                }
            },
        }
    }
}

pub open spec fn read_expr(p: Input, d: nat) -> Parsed
    decreases d, 0int,
{
    if d == 0 {
        (p, Err(nested_too_deeply(p)))
    } else {
        read_expr_bp(p, 0, (d - 1) as nat)
    }
}

/// An expression of operators that bind at least as tightly as `min`.
pub open spec fn read_expr_bp(p: Input, min: u8, d: nat) -> Parsed
    decreases d, 0int,
{
    if d == 0 {
        (p, Err(nested_too_deeply(p)))
    } else {
        match read_unary(p, (d - 1) as nat) {
            (p, Err(e)) => (p, Err(e)),
            (p, Ok(lhs)) => {
                read_operators(p, lhs, min, (d - 1) as nat)
            },
        }
    }
}

/// What follows a left operand.
pub open spec fn read_operators(p: Input, lhs: Tree, min: u8, d: nat) -> Parsed
    decreases d, 2 + tokens_left(p),
{
    if d == 0 {
        (p, Err(nested_too_deeply(p)))
    } else if starts_postfix(tok_at(p).kind) {
        let p0 = p;
        match read_postfix(p, lhs, (d - 1) as nat) {
            (p, Err(f)) => (p, Err(f)),
            (p, Ok(e)) => {
                if tokens_left(p) < tokens_left(p0) {
                    read_operators(p, e, min, d)
                } else {
                    (p, Ok(e))
                }
            },
        }
    } else if infix_op(tok_at(p).kind) is None || infix_op(tok_at(p).kind)->0.left < min {
        (p, Ok(lhs))
    } else {
        let p0 = p;
        let op = infix_op(tok_at(p).kind)->0;
        match read_operand(bumped(p), op, (d - 1) as nat) {
            (p, Err(e)) => (p, Err(e)),
            (p, Ok(rhs)) => {
                if tokens_left(p) < tokens_left(p0) {
                    read_operators(p, applied_infix(op.kind, lhs, rhs), min, d)
                } else {
                    (p, Ok(applied_infix(op.kind, lhs, rhs)))
                }
            },
        }
    }
}

/// The right operand of an operator: a type after `as`, else an expression.
pub open spec fn read_operand(p: Input, op: InfixOp, d: nat) -> Parsed
    decreases d, 0int,
{
    if d == 0 {
        (p, Err(nested_too_deeply(p)))
    } else if op.kind is Cast {
        read_type(p, (d - 1) as nat)
    } else {
        read_expr_bp(p, op.right, (d - 1) as nat)
    }
}

pub open spec fn read_unary(p: Input, d: nat) -> Parsed
    decreases d, 0int,
{
    if d == 0 {
        (p, Err(nested_too_deeply(p)))
    } else if prefix_op(tok_at(p).kind) is Some {
        let start = tok_span(p);
        let op = prefix_op(tok_at(p).kind)->0;
        match read_unary(bumped(p), (d - 1) as nat) {
            (p, Err(e)) => (p, Err(e)),
            (p, Ok(inner)) => {
                match read_postfixes(p, inner, (d - 1) as nat) {
                    (p, Err(f)) => (p, Err(f)),
                    (p, Ok(e)) => {
                        (p, Ok(node(Label::Unary(op), span_from_to(start, e.span), seq![e])))
                    },
                }
            },
        }
    } else {
        read_primary(p, (d - 1) as nat)
    }
}

/// Every postfix that follows an expression.
pub open spec fn read_postfixes(p: Input, lhs: Tree, d: nat) -> Parsed
    decreases d, 2 + tokens_left(p),
{
    if d == 0 {
        (p, Err(nested_too_deeply(p)))
    } else if starts_postfix(tok_at(p).kind) {
        let p0 = p;
        match read_postfix(p, lhs, (d - 1) as nat) {
            (p, Err(f)) => (p, Err(f)),
            (p, Ok(e)) => {
                if tokens_left(p) < tokens_left(p0) {
                    read_postfixes(p, e, d)
                } else {
                    (p, Ok(e))
                }
            },
        }
    } else {
        (p, Ok(lhs))
    }
}

/// Expressions between a bracket that was read and its closing one.
pub open spec fn read_args(p: Input, close: TokenKind, d: nat) -> (Input, Result<Seq<Tree>, Fail>)
    decreases d, 0int,
{
    if d == 0 {
        (p, Err(nested_too_deeply(p)))
    } else {
        let saved = p.no_block;
        match read_until(Input { no_block: false, ..p }, Part::Arg, close, (d - 1) as nat, seq![]) {
            (p, Err(e)) => (p, Err(e)),
            (p, Ok(es)) => {
                (Input { no_block: saved, ..p }, Ok(es))
            },
        }
    }
}

/// An expression in brackets, where blocks are allowed.
pub open spec fn read_inner(p: Input, d: nat) -> Parsed
    decreases d, 0int,
{
    if d == 0 {
        (p, Err(nested_too_deeply(p)))
    } else {
        let saved = p.no_block;
        match read_expr(Input { no_block: false, ..p }, (d - 1) as nat) {
            (p, Err(f)) => (p, Err(f)),
            (p, Ok(e)) => {
                (Input { no_block: saved, ..p }, Ok(e))
            },
        }
    }
}

pub open spec fn read_postfix(p: Input, lhs: Tree, d: nat) -> Parsed
    decreases d, 0int,
{
    if d == 0 {
        (p, Err(nested_too_deeply(p)))
    } else if tok_is(p, TokenKind::LParen) {
        match read_args(bumped(p), TokenKind::RParen, (d - 1) as nat) {
            (p, Err(e)) => (p, Err(e)),
            (p, Ok(es)) => {
                match read_token(p, TokenKind::RParen, "`)`"@) {
                    (p, Err(e)) => (p, Err(e)),
                    (p, Ok(close)) => {
                        (p, Ok(node(Label::Call, span_from_to(lhs.span, close), seq![lhs, list(es)])))
                    },
                }
            },
        }
    } else if tok_is(p, TokenKind::LBracket) {
        match read_inner(bumped(p), (d - 1) as nat) {
            (p, Err(e)) => (p, Err(e)),
            (p, Ok(i)) => {
                match read_token(p, TokenKind::RBracket, "`]`"@) {
                    (p, Err(e)) => (p, Err(e)),
                    (p, Ok(close)) => {
                        (p, Ok(node(Label::Index, span_from_to(lhs.span, close), seq![lhs, i])))
                    },
                }
            },
        }
    } else if tok_is(p, TokenKind::Dot) {
        match read_name(bumped(p)) {
            (p, Err(e)) => (p, Err(e)),
            (p, Ok(n)) => {
                if tok_is(p, TokenKind::LParen) {
                    match read_args(bumped(p), TokenKind::RParen, (d - 1) as nat) {
                        (p, Err(e)) => (p, Err(e)),
                        (p, Ok(es)) => {
                            match read_token(p, TokenKind::RParen, "`)`"@) {
                                (p, Err(e)) => (p, Err(e)),
                                (p, Ok(close)) => {
                                    (p, Ok(node(Label::MethodCall, span_from_to(lhs.span, close), seq![lhs, n, list(es)])))
                                },
                            }
                        },
                    }
                } else {
                    (p, Ok(node(Label::FieldAccess, span_from_to(lhs.span, n.span), seq![lhs, n])))
                }
            },
        }
    } else {
        (bumped(p), Ok(node(Label::Try, span_from_to(lhs.span, tok_span(p)), seq![lhs])))
    }
}

pub open spec fn read_primary(p: Input, d: nat) -> Parsed
    decreases d, 0int,
{
    if d == 0 {
        (p, Err(nested_too_deeply(p)))
    } else if starts_literal(tok_at(p).kind) {
        match read_literal(p) {
            (p, Err(e)) => (p, Err(e)),
            (p, Ok(l)) => {
                (p, Ok(node(Label::Literal, l.1, seq![leaf(l.0, no_span())])))
            },
        }
    } else if tok_at(p).kind is Ident {
        match read_path(p, (d - 1) as nat) {
            (p, Err(e)) => (p, Err(e)),
            (p, Ok(path)) => {
                if !p.no_struct && tok_is(p, TokenKind::LBrace) {
                    read_struct_lit(p, path, (d - 1) as nat)
                } else {
                    (p, Ok(node(Label::PathExpr, path.span, seq![path])))
                }
            },
        }
    } else if tok_is(p, TokenKind::LParen) {
        match read_inner(bumped(p), (d - 1) as nat) {
            (p, Err(f)) => (p, Err(f)),
            (p, Ok(e)) => {
                match read_token(p, TokenKind::RParen, "`)`"@) {
                    (p, Err(e)) => (p, Err(e)),
                    (p, Ok(_)) => {
                        (p, Ok(e))
                    },
                }
            },
        }
    } else if tok_is(p, TokenKind::LBracket) {
        let start = tok_span(p);
        match read_args(bumped(p), TokenKind::RBracket, (d - 1) as nat) {
            (p, Err(e)) => (p, Err(e)),
            (p, Ok(es)) => {
                match read_token(p, TokenKind::RBracket, "`]`"@) {
                    (p, Err(e)) => (p, Err(e)),
                    (p, Ok(close)) => {
                        (p, Ok(node(Label::Array, span_from_to(start, close), es)))
                    },
                }
            },
        }
    } else if tok_is(p, TokenKind::LBrace) && !p.no_block {
        match read_block(p, (d - 1) as nat) {
            (p, Err(e)) => (p, Err(e)),
            (p, Ok(b)) => {
                (p, Ok(node(Label::BlockExpr, b.span, seq![b])))
            },
        }
    } else if tok_is(p, TokenKind::If) {
        read_if_expr(p, (d - 1) as nat)
    } else if tok_is(p, TokenKind::While) {
        read_while_expr(p, (d - 1) as nat)
    } else if tok_is(p, TokenKind::For) {
        read_for_expr(p, (d - 1) as nat)
    } else if tok_is(p, TokenKind::Match) {
        read_match_expr(p, (d - 1) as nat)
    } else if tok_is(p, TokenKind::Return) {
        read_return_expr(p, (d - 1) as nat)
    } else if tok_is(p, TokenKind::Break) {
        (bumped(p), Ok(leaf(Label::Break, tok_span(p))))
    } else if tok_is(p, TokenKind::Continue) {
        (bumped(p), Ok(leaf(Label::Continue, tok_span(p))))
    } else {
        (p, Err(expected_here(p, "expression"@)))
    }
}

pub open spec fn read_return_expr(p: Input, d: nat) -> Parsed
    decreases d, 0int,
{
    if d == 0 {
        (p, Err(nested_too_deeply(p)))
    } else {
        let start = tok_span(p);
        let p = bumped(p);
        if tok_is(p, TokenKind::Semi) || tok_is(p, TokenKind::RBrace) || tok_is(p, TokenKind::Comma) || tok_is(p, TokenKind::Eof) {
            (p, Ok(node(Label::Return, start, seq![absent()])))
        } else {
            match read_expr(p, (d - 1) as nat) {
                (p, Err(f)) => (p, Err(f)),
                (p, Ok(e)) => {
                    (p, Ok(node(Label::Return, span_from_to(start, e.span), seq![e])))
                },
            }
        }
    }
}

pub open spec fn read_struct_lit(p: Input, path: Tree, d: nat) -> Parsed
    decreases d, 0int,
{
    if d == 0 {
        (p, Err(nested_too_deeply(p)))
    } else {
        match read_token(p, TokenKind::LBrace, "`{`"@) {
            (p, Err(e)) => (p, Err(e)),
            (p, Ok(_)) => {
                let q = p;
                match read_until(Input { no_block: false, no_struct: false, ..p }, Part::Init, TokenKind::RBrace, (d - 1) as nat, seq![]) {
                    (p, Err(e)) => (p, Err(e)),
                    (p, Ok(fs)) => {
                        match read_token(Input { no_block: q.no_block, no_struct: q.no_struct, ..p }, TokenKind::RBrace, "`}`"@) {
                            (p, Err(e)) => (p, Err(e)),
                            (p, Ok(close)) => {
                                (p, Ok(node(Label::StructLit, span_from_to(path.span, close), seq![path, list(fs)])))
                            },
                        }
                    },
                }
            },
        }
    }
}

/// `name: value`.
pub open spec fn read_init(p: Input, d: nat) -> Parsed
    decreases d, 0int,
{
    if d == 0 {
        (p, Err(nested_too_deeply(p)))
    } else {
        match read_name(p) {
            (p, Err(e)) => (p, Err(e)),
            (p, Ok(n)) => {
                match read_token(p, TokenKind::Colon, "`:`"@) {
                    (p, Err(e)) => (p, Err(e)),
                    (p, Ok(_)) => {
                        match read_expr(p, (d - 1) as nat) {
                            (p, Err(f)) => (p, Err(f)),
                            (p, Ok(e)) => {
                                (p, Ok(node(Label::Init, n.span, seq![n, e])))
                            },
                        }
                    },
                }
            },
        }
    }
}

/// A condition or scrutinee: a brace after it opens the body.
pub open spec fn read_head(p: Input, d: nat) -> Parsed
    decreases d, 0int,
{
    if d == 0 {
        (p, Err(nested_too_deeply(p)))
    } else {
        let r = read_expr(Input { no_block: true, no_struct: true, ..p }, (d - 1) as nat);
        (Input { no_block: p.no_block, no_struct: p.no_struct, ..r.0 }, r.1)
    }
}

pub open spec fn read_if_expr(p: Input, d: nat) -> Parsed
    decreases d, 0int,
{
    if d == 0 {
        (p, Err(nested_too_deeply(p)))
    } else {
        match read_token(p, TokenKind::If, "`if`"@) {
            (p, Err(e)) => (p, Err(e)),
            (p, Ok(lead)) => {
                match read_head(p, (d - 1) as nat) {
                    (p, Err(e)) => (p, Err(e)),
                    (p, Ok(c)) => {
                        match read_block(p, (d - 1) as nat) {
                            (p, Err(e)) => (p, Err(e)),
                            (p, Ok(b)) => {
                                if tok_is(p, TokenKind::Else) {
                                    match read_else_branch(bumped(p), (d - 1) as nat) {
                                        (p, Err(f)) => (p, Err(f)),
                                        (p, Ok(e)) => {
                                            (p, Ok(node(Label::If, span_from_to(lead, e.span), seq![c, b, e])))
                                        },
                                    }
                                } else {
                                    (p, Ok(node(Label::If, span_from_to(lead, b.span), seq![c, b, absent()])))
                                }
                            },
                        }
                    },
                }
            },
        }
    }
}

pub open spec fn read_else_branch(p: Input, d: nat) -> Parsed
    decreases d, 0int,
{
    if d == 0 {
        (p, Err(nested_too_deeply(p)))
    } else if tok_is(p, TokenKind::If) {
        read_if_expr(p, (d - 1) as nat)
    } else {
        match read_block(p, (d - 1) as nat) {
            (p, Err(e)) => (p, Err(e)),
            (p, Ok(b)) => {
                (p, Ok(node(Label::BlockExpr, b.span, seq![b])))
            },
        }
    }
}

pub open spec fn read_while_expr(p: Input, d: nat) -> Parsed
    decreases d, 0int,
{
    if d == 0 {
        (p, Err(nested_too_deeply(p)))
    } else {
        match read_token(p, TokenKind::While, "`while`"@) {
            (p, Err(e)) => (p, Err(e)),
            (p, Ok(lead)) => {
                match read_head(p, (d - 1) as nat) {
                    (p, Err(e)) => (p, Err(e)),
                    (p, Ok(c)) => {
                        match read_block(p, (d - 1) as nat) {
                            (p, Err(e)) => (p, Err(e)),
                            (p, Ok(b)) => {
                                (p, Ok(node(Label::While, span_from_to(lead, b.span), seq![c, b])))
                            },
                        }
                    },
                }
            },
        }
    }
}

pub open spec fn read_for_expr(p: Input, d: nat) -> Parsed
    decreases d, 0int,
{
    if d == 0 {
        (p, Err(nested_too_deeply(p)))
    } else {
        match read_token(p, TokenKind::For, "`for`"@) {
            (p, Err(e)) => (p, Err(e)),
            (p, Ok(lead)) => {
                match read_pattern(p, (d - 1) as nat) {
                    (p, Err(e)) => (p, Err(e)),
                    (p, Ok(q)) => {
                        match read_token(p, TokenKind::In, "`in`"@) {
                            (p, Err(e)) => (p, Err(e)),
                            (p, Ok(_)) => {
                                match read_head(p, (d - 1) as nat) {
                                    (p, Err(e)) => (p, Err(e)),
                                    (p, Ok(c)) => {
                                        match read_block(p, (d - 1) as nat) {
                                            (p, Err(e)) => (p, Err(e)),
                                            (p, Ok(b)) => {
                                                (p, Ok(node(Label::For, span_from_to(lead, b.span), seq![q, c, b])))
                                            },
                                        }
                                    },
                                }
                            },
                        }
                    },
                }
            },
        }
    }
}

pub open spec fn read_match_expr(p: Input, d: nat) -> Parsed
    decreases d, 0int,
{
    if d == 0 {
        (p, Err(nested_too_deeply(p)))
    } else {
        match read_token(p, TokenKind::Match, "`match`"@) {
            (p, Err(e)) => (p, Err(e)),
            (p, Ok(lead)) => {
                match read_head(p, (d - 1) as nat) {
                    (p, Err(e)) => (p, Err(e)),
                    (p, Ok(c)) => {
                        match read_token(p, TokenKind::LBrace, "`{`"@) {
                            (p, Err(e)) => (p, Err(e)),
                            (p, Ok(_)) => {
                                match read_within(p, Part::Arm, (d - 1) as nat, seq![]) {
                                    (p, Err(e)) => (p, Err(e)),
                                    (p, Ok(arms)) => {
                                        match read_token(p, TokenKind::RBrace, "`}`"@) {
                                            (p, Err(e)) => (p, Err(e)),
                                            (p, Ok(close)) => {
                                                (p, Ok(node(Label::Match, span_from_to(lead, close), seq![c, list(arms)])))
                                            },
                                        }
                                    },
                                }
                            },
                        }
                    },
                }
            },
        }
    }
}

pub open spec fn read_guard(p: Input, d: nat) -> Parsed
    decreases d, 0int,
{
    if d == 0 {
        (p, Err(nested_too_deeply(p)))
    } else if tok_is(p, TokenKind::If) {
        read_head(bumped(p), (d - 1) as nat)
    } else {
        (p, Ok(absent()))
    }
}

pub open spec fn read_arm(p: Input, d: nat) -> Parsed
    decreases d, 0int,
{
    if d == 0 {
        (p, Err(nested_too_deeply(p)))
    } else {
        match read_pattern(p, (d - 1) as nat) {
            (p, Err(e)) => (p, Err(e)),
            (p, Ok(q)) => {
                match read_guard(p, (d - 1) as nat) {
                    (p, Err(e)) => (p, Err(e)),
                    (p, Ok(g)) => {
                        match read_token(p, TokenKind::FatArrow, "`=>`"@) {
                            (p, Err(e)) => (p, Err(e)),
                            (p, Ok(_)) => {
                                match read_expr(p, (d - 1) as nat) {
                                    (p, Err(f)) => (p, Err(f)),
                                    (p, Ok(e)) => {
                                        let p = if tok_is(p, TokenKind::Comma) { bumped(p) } else { p };
                                        (p, Ok(node(Label::Arm, span_from_to(q.span, e.span), seq![q, g, e])))
                                    },
                                }
                            },
                        }
                    },
                }
            },
        }
    }
}

// ---- a whole source ----

/// The input from the next token on with which an item may begin.
pub open spec fn next_item(p: Input) -> Input
    decreases tokens_left(p),
{
    if tok_is(p, TokenKind::Eof) || starts_item(tok_at(p).kind) || tokens_left(bumped(p)) >= tokens_left(p) {
        p
    } else {
        next_item(bumped(p))
    }
}

/// The items read, and what was found wrong: after each fault reading goes on
/// at the next token with which an item may begin.
pub open spec fn read_items(p: Input, items: Seq<Tree>, fails: Seq<Fail>) -> (Seq<Tree>, Seq<Fail>)
    decreases tokens_left(p),
{
    if tok_is(p, TokenKind::Eof) {
        (items, fails)
    } else {
        match read_item(p, NESTING_LIMIT as nat) {
            (q, Ok(t)) => if tokens_left(q) < tokens_left(p) {
                read_items(q, items.push(t), fails)
            } else {
                (items.push(t), fails)
            },
            (q, Err(e)) => if tokens_left(next_item(q)) < tokens_left(p) {
                read_items(next_item(q), items, fails.push(e))
            } else {
                (items, fails.push(e))
            },
        }
    }
}

/// The module that the tokens are, and the faults in them.
pub open spec fn module_of(toks: Seq<TokenV>) -> (Tree, Seq<Fail>) {
    let r = read_items(input_of(toks), seq![], seq![]);
    (node(Label::Module, Span { start: 0, end: toks.last().span.end }, r.0), r.1)
}

} // verus!

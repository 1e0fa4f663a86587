//! How operators group what stands around them.

use vstd::prelude::*;

use crate::ast::{BinOp, Ident, UnOp};
use crate::grammar::{
    Fail, InfixKind, Input, applied_infix, bumped, infix_op, literal_of, prefix_op, read_expr,
    read_expr_bp, read_inner, read_operand, read_operators, read_postfixes, read_primary,
    read_unary, span_from_to, starts_literal, starts_postfix, tok_at, tok_is, tok_span,
    tokens_left,
};
use crate::spelling_laws::spelling;
use crate::token::{TokenKind, TokenKindV};
use crate::tree::{Label, Tree, leaf, no_span, node};

verus! {

// ---- levels ----

/// How tightly an operator binds: the levels from the loosest to the tightest.
pub open spec fn level(k: InfixKind) -> int {
    match k {
        InfixKind::Assign | InfixKind::AssignOp(_) => 0,
        InfixKind::Range(_) => 1,
        InfixKind::BinOp(BinOp::Or) => 2,
        InfixKind::BinOp(BinOp::And) => 3,
        InfixKind::BinOp(BinOp::Eq) | InfixKind::BinOp(BinOp::Ne) | InfixKind::BinOp(BinOp::Lt)
        | InfixKind::BinOp(BinOp::Gt) | InfixKind::BinOp(BinOp::Le) | InfixKind::BinOp(BinOp::Ge) => 4,
        InfixKind::BinOp(BinOp::BitOr) => 5,
        InfixKind::BinOp(BinOp::BitXor) => 6,
        InfixKind::BinOp(BinOp::BitAnd) => 7,
        InfixKind::BinOp(BinOp::Shl) | InfixKind::BinOp(BinOp::Shr) => 8,
        InfixKind::BinOp(BinOp::Add) | InfixKind::BinOp(BinOp::Sub) => 9,
        InfixKind::BinOp(BinOp::Mul) | InfixKind::BinOp(BinOp::Div) | InfixKind::BinOp(BinOp::Mod) => 10,
        InfixKind::Cast => 11,
    }
}

/// The symbol of a binary operator.
pub open spec fn symbol_of(op: BinOp) -> TokenKind {
    match op {
        BinOp::Add => TokenKind::Plus,
        BinOp::Sub => TokenKind::Minus,
        BinOp::Mul => TokenKind::Star,
        BinOp::Div => TokenKind::Slash,
        BinOp::Mod => TokenKind::Percent,
        BinOp::Eq => TokenKind::EqEq,
        BinOp::Ne => TokenKind::BangEq,
        BinOp::Lt => TokenKind::Lt,
        BinOp::Gt => TokenKind::Gt,
        BinOp::Le => TokenKind::LtEq,
        BinOp::Ge => TokenKind::GtEq,
        BinOp::And => TokenKind::AmpAmp,
        BinOp::Or => TokenKind::PipePipe,
        BinOp::BitAnd => TokenKind::Amp,
        BinOp::BitOr => TokenKind::Pipe,
        BinOp::BitXor => TokenKind::Caret,
        BinOp::Shl => TokenKind::Shl,
        BinOp::Shr => TokenKind::Shr,
    }
}

/// Whether an operator is written with a token.
pub open spec fn is_written(k: InfixKind, t: TokenKind) -> bool {
    match k {
        InfixKind::BinOp(op) => t == symbol_of(op),
        InfixKind::Assign => t == TokenKind::Eq,
        InfixKind::AssignOp(op) => spelling(t) == spelling(symbol_of(op)).push('=') && (op is Add || op is Sub
            || op is Mul || op is Div || op is Mod),
        InfixKind::Cast => t == TokenKind::As,
        InfixKind::Range(inclusive) => t == if inclusive {
            TokenKind::DotDotEq
        } else {
            TokenKind::DotDot
        },
    }
}

/// Each infix operator is written with its own symbol: a compound assignment
/// with that of its operator and an equals sign.
#[verifier::spinoff_prover]
pub proof fn operators_have_their_symbols(t: TokenKind)
    ensures
        infix_op(TokenKindV::Plain(t)) matches Some(op) ==> is_written(op.kind, t),
        infix_op(TokenKindV::Plain(t)) is None ==> forall|k: InfixKind| !#[trigger] is_written(k, t),
        prefix_op(TokenKindV::Plain(t)) == (match t {
            TokenKind::Minus => Some(UnOp::Neg),
            TokenKind::Bang => Some(UnOp::Not),
            TokenKind::Tilde => Some(UnOp::BitNot),
            _ => None,
        }),
{
    match infix_op(TokenKindV::Plain(t)) {
        Some(op) => {
            match op.kind {
                InfixKind::AssignOp(b) => {
                    assert(spelling(t) =~= spelling(symbol_of(b)).push('='));
                },
                _ => {},
            }
        },
        None => {
            assert forall|k: InfixKind| !#[trigger] is_written(k, t) by {
                match k {
                    InfixKind::AssignOp(b) => if b is Add || b is Sub || b is Mul || b is Div || b is Mod {
                        keywords_are_no_compounds(t, b);
                    },
                    _ => {},
                }
            }
        },
    }
}

proof fn keywords_are_no_compounds(t: TokenKind, b: BinOp)
    requires
        infix_op(TokenKindV::Plain(t)) is None,
        b is Add || b is Sub || b is Mul || b is Div || b is Mod,
    ensures
        spelling(t) != spelling(symbol_of(b)).push('='),
{
    let x = spelling(symbol_of(b)).push('=');
    reveal_strlit("fn");
    reveal_strlit("if");
    reveal_strlit("in");
    reveal_strlit("let");
    reveal_strlit("mut");
    reveal_strlit("return");
    reveal_strlit("else");
    reveal_strlit("while");
    reveal_strlit("for");
    reveal_strlit("break");
    reveal_strlit("continue");
    reveal_strlit("true");
    reveal_strlit("false");
    reveal_strlit("struct");
    reveal_strlit("enum");
    reveal_strlit("match");
    reveal_strlit("pub");
    reveal_strlit("const");
    reveal_strlit("impl");
    reveal_strlit("trait");
    reveal_strlit("mod");
    reveal_strlit("use");
    reveal_strlit("dyn");
    assert(x.len() == 2 && x[1] == '=');
    assert(x[0] == spelling(symbol_of(b))[0]);
    if spelling(t) == x {
        assert(spelling(t).len() == 2 && spelling(t)[1] == '=');
        assert(spelling(t)[0] == x[0]);
    }
}

/// The order of the levels: assignments, ranges, `||`, `&&`, comparisons, `|`,
/// `^`, `&`, shifts, sums, products, casts. Operators of one level bind alike,
/// and one of a higher level binds tighter. Only assignments group from the
/// right.
pub proof fn levels_are_in_order(a: TokenKindV, b: TokenKindV)
    requires
        infix_op(a) is Some,
        infix_op(b) is Some,
    ensures
        ({
            let x = infix_op(a)->0;
            let y = infix_op(b)->0;
            &&& level(x.kind) < level(y.kind) <==> x.left < y.left
            &&& level(x.kind) == level(y.kind) <==> x.left == y.left
            &&& level(x.kind) < level(y.kind) <==> x.right < y.right
            &&& level(y.kind) > level(x.kind) ==> y.left >= x.right
            &&& level(x.kind) > 0 && level(y.kind) <= level(x.kind) ==> y.left < x.right
            &&& level(x.kind) == 0 ==> y.left >= x.right
        }),
{
}

// ---- formulas ----

/// An expression of literals, brackets and operators.
pub enum Formula {
    Literal(TokenKindV),
    Bracketed(Box<Formula>),
    Prefixed(UnOp, Box<Formula>),
    /// The token is the operator's.
    Joined(InfixKind, TokenKind, Box<Formula>, Box<Formula>),
}

pub open spec fn prefix_symbol(op: UnOp) -> TokenKind {
    match op {
        UnOp::Neg => TokenKind::Minus,
        UnOp::Not => TokenKind::Bang,
        UnOp::BitNot => TokenKind::Tilde,
    }
}

/// The tokens of a formula.
pub open spec fn written(f: Formula) -> Seq<TokenKindV>
    decreases f,
{
    match f {
        Formula::Literal(k) => seq![k],
        Formula::Bracketed(g) => seq![TokenKindV::Plain(TokenKind::LParen)] + written(*g)
            + seq![TokenKindV::Plain(TokenKind::RParen)],
        Formula::Prefixed(op, g) => seq![TokenKindV::Plain(prefix_symbol(op))] + written(*g),
        Formula::Joined(_, t, a, b) => written(*a) + seq![TokenKindV::Plain(t)] + written(*b),
    }
}

/// The level of a formula's outermost operator; past every level when nothing
/// can come between its parts.
pub open spec fn outermost(f: Formula) -> int {
    match f {
        Formula::Joined(k, _, _, _) => level(k),
        _ => 12,
    }
}

/// Whether a formula needs no more brackets: what stands beside an operator
/// binds tighter than it, or as tightly on the side that the operator groups
/// from.
pub open spec fn is_grouped(f: Formula) -> bool
    decreases f,
{
    match f {
        Formula::Literal(k) => is_literal(k),
        Formula::Bracketed(g) => is_grouped(*g),
        Formula::Prefixed(_, g) => !(*g is Joined) && is_grouped(*g),
        Formula::Joined(k, t, a, b) => {
            &&& is_written(k, t)
            &&& !(k is Cast)
            &&& is_grouped(*a)
            &&& is_grouped(*b)
            &&& if level(k) == 0 {
                outermost(*a) > 0
            } else {
                outermost(*a) >= level(k) && outermost(*b) > level(k)
            }
        },
    }
}

pub open spec fn is_literal(k: TokenKindV) -> bool {
    match k {
        TokenKindV::Int(_, _) | TokenKindV::Float(_, _) | TokenKindV::Str(_) | TokenKindV::Char(_) => true,
        TokenKindV::Plain(p) => p == TokenKind::True || p == TokenKind::False,
        _ => false,
    }
}

/// Whether a label is of the literal that a token is.
pub open spec fn is_value(k: TokenKindV, l: Label) -> bool {
    match k {
        TokenKindV::Int(v, t) => l == Label::Int(v, t),
        TokenKindV::Float(x, t) => l == Label::Float(x, t),
        TokenKindV::Str(x) => l == Label::Str(x),
        TokenKindV::Char(c) => l == Label::Char(c),
        TokenKindV::Plain(TokenKind::True) => l == Label::Bool(true),
        TokenKindV::Plain(TokenKind::False) => l == Label::Bool(false),
        _ => false,
    }
}

pub open spec fn joins(k: InfixKind, l: Label) -> bool {
    match k {
        InfixKind::BinOp(op) => l == Label::Binary(op),
        InfixKind::Assign => l == Label::Assign,
        InfixKind::AssignOp(op) => l == Label::AssignOp(op),
        InfixKind::Cast => l == Label::Cast,
        InfixKind::Range(inclusive) => l == Label::Range(inclusive),
    }
}

/// Whether a tree is of a formula.
pub open spec fn is_tree_of(t: Tree, f: Formula) -> bool
    decreases f,
{
    match f {
        Formula::Literal(k) => t.label == Label::Literal && t.parts.len() == 1 && is_value(k, t.parts[0].label),
        Formula::Bracketed(g) => is_tree_of(t, *g),
        Formula::Prefixed(op, g) => t.label == Label::Unary(op) && t.parts.len() == 1 && is_tree_of(t.parts[0], *g),
        Formula::Joined(k, _, a, b) => joins(k, t.label) && t.parts.len() == 2 && is_tree_of(t.parts[0], *a)
            && is_tree_of(t.parts[1], *b),
    }
}

/// How deeply reading a formula goes.
pub open spec fn depth_of(f: Formula) -> nat
    decreases f,
{
    match f {
        Formula::Literal(_) => 4,
        Formula::Bracketed(g) => depth_of(*g) + 8,
        Formula::Prefixed(_, g) => depth_of(*g) + 2,
        Formula::Joined(_, _, a, b) => depth_of(*a) + depth_of(*b) + 4,
    }
}

/// Whether the next tokens are these, with another after them.
pub open spec fn comes(p: Input, ks: Seq<TokenKindV>) -> bool {
    &&& p.pos + ks.len() < p.toks.len()
    &&& forall|i: int| 0 <= i < ks.len() ==> p.toks[p.pos + i].kind == #[trigger] ks[i]
}

pub open spec fn past(p: Input, n: nat) -> Input {
    Input { pos: p.pos + n, ..p }
}

/// Whether reading stops before a token, for operators that bind at least so
/// tightly.
pub open spec fn stops(k: TokenKindV, min: int) -> bool {
    &&& !starts_postfix(k)
    &&& infix_op(k) matches Some(op) ==> op.left < min
}

/// Whether what follows a formula leaves it whole.
pub open spec fn leaves_whole(k: TokenKindV, f: Formula) -> bool {
    match f {
        Formula::Joined(_, t, _, _) => stops(k, infix_op(TokenKindV::Plain(t))->0.right as int),
        _ => !starts_postfix(k),
    }
}

/// How tightly the outermost operator binds to its left.
pub open spec fn tightness(f: Formula) -> int {
    match f {
        Formula::Joined(_, t, _, _) => infix_op(TokenKindV::Plain(t))->0.left as int,
        _ => 256,
    }
}

proof fn first_of(p: Input, a: Seq<TokenKindV>, b: Seq<TokenKindV>)
    requires
        comes(p, a + b),
    ensures
        comes(p, a) || b.len() == 0,
        comes(past(p, a.len()), b),
        b.len() > 0 ==> tok_at(past(p, a.len())).kind == b[0],
        a.len() > 0 ==> tok_at(p).kind == a[0],
{
    let ab = a + b;
    assert forall|i: int| 0 <= i < a.len() implies p.toks[p.pos + i].kind == #[trigger] a[i] by {
        assert(ab[i] == a[i]);
    }
    assert forall|i: int| 0 <= i < b.len() implies past(p, a.len()).toks[past(p, a.len()).pos + i].kind
        == #[trigger] b[i] by {
        assert(ab[a.len() + i] == b[i]);
    }
    if b.len() > 0 {
        assert(ab[a.len() as int] == b[0]);
    }
    if a.len() > 0 {
        assert(ab[0] == a[0]);
    }
}

proof fn written_is_some(f: Formula)
    ensures
        written(f).len() > 0,
    decreases f,
{
    match f {
        Formula::Joined(_, _, a, _) => written_is_some(*a),
        _ => {},
    }
}

proof fn symbol_is_infix(k: InfixKind, t: TokenKind)
    requires
        is_written(k, t),
    ensures
        infix_op(TokenKindV::Plain(t)) matches Some(op) && op.kind == k,
        !starts_postfix(TokenKindV::Plain(t)),
{
    operators_have_their_symbols(t);
    let op = infix_op(TokenKindV::Plain(t))->0;
    match (k, op.kind) {
        (InfixKind::AssignOp(a), InfixKind::AssignOp(b)) => {
            let x = spelling(symbol_of(a));
            let y = spelling(symbol_of(b));
            assert(x.push('=')[0] == x[0] && y.push('=')[0] == y[0]);
            assert(x[0] == y[0]);
        },
        (InfixKind::AssignOp(a), _) => {
            let x = spelling(symbol_of(a)).push('=');
            assert(x[0] == spelling(symbol_of(a))[0] && x[1] == '=' && x.len() == 2);
            reveal_strlit("as");
        },
        (_, InfixKind::AssignOp(b)) => {
            let x = spelling(symbol_of(b)).push('=');
            assert(x[0] == spelling(symbol_of(b))[0] && x[1] == '=' && x.len() == 2);
        },
        _ => {},
    }
}

/// A literal, brackets or a prefixed one are read as they are.
proof fn operand_is_read(p: Input, f: Formula, d: nat) -> (t: Tree)
    requires
        is_grouped(f),
        !(f is Joined),
        comes(p, written(f)),
        d + 1 >= depth_of(f),
        !starts_postfix(tok_at(past(p, written(f).len())).kind),
    ensures
        read_unary(p, d) == (past(p, written(f).len()), Ok::<Tree, Fail>(t)),
        is_tree_of(t, f),
    decreases f, 0nat,
{
    match f {
        Formula::Literal(k) => literal_is_read(p, k, d),
        Formula::Bracketed(g) => {
            let open = seq![TokenKindV::Plain(TokenKind::LParen)];
            let close = seq![TokenKindV::Plain(TokenKind::RParen)];
            assert(written(f) =~= open + (written(*g) + close));
            first_of(p, open, written(*g) + close);
            let q = past(p, 1);
            let inner = Input { no_block: false, ..q };
            first_of(q, written(*g), close);
            assert(comes(inner, written(*g)));
            let t = formula_is_read(inner, *g, 0, (d - 4) as nat);
            brackets_are_read(p, *g, t, d);
            t
        },
        Formula::Prefixed(op, g) => {
            let sign = seq![TokenKindV::Plain(prefix_symbol(op))];
            first_of(p, sign, written(*g));
            let q = past(p, 1);
            assert(past(q, written(*g).len()) == past(p, written(f).len()));
            let inner = operand_is_read(q, *g, (d - 1) as nat);
            prefix_is_read(p, op, past(p, written(f).len()), inner, d)
        },
        Formula::Joined(_, _, _, _) => arbitrary(),
    }
}

#[verifier::spinoff_prover]
proof fn literal_is_read(p: Input, k: TokenKindV, d: nat) -> (t: Tree)
    requires
        is_literal(k),
        comes(p, seq![k]),
        d >= 3,
    ensures
        read_unary(p, d) == (past(p, 1), Ok::<Tree, Fail>(t)),
        is_tree_of(t, Formula::Literal(k)),
{
    assert(tok_at(p).kind == seq![k][0]);
    assert(bumped(p) == past(p, 1));
    assert(prefix_op(k) is None);
    assert(starts_literal(k));
    let l = literal_of(k)->0;
    let t = node(Label::Literal, tok_span(p), seq![leaf(l, no_span())]);
    assert(read_primary(p, (d - 1) as nat) == (past(p, 1), Ok::<Tree, Fail>(t)));
    assert(t.parts[0].label == l);
    t
}

#[verifier::spinoff_prover]
proof fn brackets_are_read(p: Input, g: Formula, t: Tree, d: nat)
    requires
        comes(p, written(Formula::Bracketed(Box::new(g)))),
        d >= 6,
        ({
            let inner = Input { no_block: false, ..past(p, 1) };
            read_expr_bp(inner, 0, (d - 4) as nat) == (past(inner, written(g).len()), Ok::<Tree, Fail>(t))
        }),
    ensures
        read_unary(p, d) == (past(p, written(Formula::Bracketed(Box::new(g))).len()), Ok::<Tree, Fail>(t)),
{
    let open = seq![TokenKindV::Plain(TokenKind::LParen)];
    let close = seq![TokenKindV::Plain(TokenKind::RParen)];
    let all = written(Formula::Bracketed(Box::new(g)));
    assert(all =~= open + (written(g) + close));
    first_of(p, open, written(g) + close);
    let q = past(p, 1);
    assert(bumped(p) == q);
    let inner = Input { no_block: false, ..q };
    first_of(q, written(g), close);
    let after = past(inner, written(g).len());
    let back = Input { no_block: q.no_block, ..after };
    assert(read_expr(inner, (d - 3) as nat) == (after, Ok::<Tree, Fail>(t)));
    assert(read_inner(q, (d - 2) as nat) == (back, Ok::<Tree, Fail>(t)));
    assert(tok_is(back, TokenKind::RParen));
    assert(bumped(back) == past(p, all.len()));
    let k = tok_at(p).kind;
    assert(k == TokenKindV::Plain(TokenKind::LParen));
    assert(!starts_literal(k) && !(k is Ident) && prefix_op(k) is None);
    assert(read_primary(p, (d - 1) as nat) == (past(p, all.len()), Ok::<Tree, Fail>(t)));
}

#[verifier::spinoff_prover]
proof fn prefix_is_read(p: Input, op: UnOp, end: Input, inner: Tree, d: nat) -> (t: Tree)
    requires
        d >= 2,
        p.pos < p.toks.len(),
        tok_at(p).kind == TokenKindV::Plain(prefix_symbol(op)),
        read_unary(past(p, 1), (d - 1) as nat) == (end, Ok::<Tree, Fail>(inner)),
        !starts_postfix(tok_at(end).kind),
    ensures
        read_unary(p, d) == (end, Ok::<Tree, Fail>(t)),
        t.label == Label::Unary(op),
        t.parts == seq![inner],
{
    operators_have_their_symbols(prefix_symbol(op));
    assert(bumped(p) == past(p, 1));
    assert(read_postfixes(end, inner, (d - 1) as nat) == (end, Ok::<Tree, Fail>(inner)));
    node(Label::Unary(op), span_from_to(tok_span(p), inner.span), seq![inner])
}

/// A formula is read up to its end, and what follows is read on from there.
proof fn formula_goes_on(p: Input, f: Formula, min: u8, d: nat) -> (t: Tree)
    requires
        is_grouped(f),
        comes(p, written(f)),
        d >= depth_of(f),
        tightness(f) >= min,
        leaves_whole(tok_at(past(p, written(f).len())).kind, f),
    ensures
        read_expr_bp(p, min, d) == read_operators(past(p, written(f).len()), t, min, (d - 1) as nat),
        is_tree_of(t, f),
    decreases f, 1nat,
{
    let n = written(f).len();
    match f {
        Formula::Joined(k, s, a, b) => {
            let sign = seq![TokenKindV::Plain(s)];
            symbol_is_infix(k, s);
            let op = infix_op(TokenKindV::Plain(s))->0;
            assert(written(f) =~= written(*a) + (sign + written(*b)));
            first_of(p, written(*a), sign + written(*b));
            let q = past(p, written(*a).len());
            first_of(q, sign, written(*b));
            let r = bumped(q);
            assert(r == past(q, 1));
            let end = past(r, written(*b).len());
            assert(end == past(p, n));
            assert(is_grouped(*a) && is_grouped(*b));
            match *a {
                Formula::Joined(ka, sa, _, _) => {
                    symbol_is_infix(ka, sa);
                    levels_are_in_order(TokenKindV::Plain(sa), TokenKindV::Plain(s));
                    levels_are_in_order(TokenKindV::Plain(s), TokenKindV::Plain(sa));
                },
                _ => {},
            }
            let ta = formula_goes_on(p, *a, min, d);
            match *b {
                Formula::Joined(kb, sb, _, _) => {
                    symbol_is_infix(kb, sb);
                    levels_are_in_order(TokenKindV::Plain(s), TokenKindV::Plain(sb));
                    levels_are_in_order(TokenKindV::Plain(sb), TokenKindV::Plain(s));
                },
                _ => {},
            }
            let next = tok_at(end).kind;
            assert(stops(next, op.right as int));
            let tb = formula_goes_on(r, *b, op.right, (d - 3) as nat);
            assert(read_operators(end, tb, op.right, (d - 4) as nat) == (end, Ok::<Tree, Fail>(tb)));
            assert(read_operand(r, op, (d - 2) as nat) == (end, Ok::<Tree, Fail>(tb)));
            written_is_some(*b);
            assert(tokens_left(end) < tokens_left(q));
            let t = applied_infix(op.kind, ta, tb);
            assert(read_operators(q, ta, min, (d - 1) as nat) == read_operators(end, t, min, (d - 1) as nat));
            assert(t.parts[0] == ta && t.parts[1] == tb);
            t
        },
        _ => {
            let t = operand_is_read(p, f, (d - 1) as nat);
            t
        },
    }
}

/// A formula that needs no more brackets is read as itself: the tree joins what
/// each operator stands between, as the levels say, for every nesting of
/// operators. What follows must be no operator and no postfix.
pub proof fn formula_is_read(p: Input, f: Formula, min: u8, d: nat) -> (t: Tree)
    requires
        is_grouped(f),
        comes(p, written(f)),
        d >= depth_of(f),
        tightness(f) >= min,
        stops(tok_at(past(p, written(f).len())).kind, 0),
    ensures
        read_expr_bp(p, min, d) == (past(p, written(f).len()), Ok::<Tree, Fail>(t)),
        is_tree_of(t, f),
    decreases f, 2nat,
{
    formula_goes_on(p, f, min, d)
}

} // verus!

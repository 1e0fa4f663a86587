//! Parsing of expressions, by precedence climbing.

use vstd::prelude::*;

use crate::ast::{Expr, FieldInit, MatchArm, Path, UnOp};
use crate::grammar::{
    InfixKind, InfixOp, NESTING_LIMIT, Part, applied_infix, read_args, read_arm, read_element,
    read_else_branch, read_expr, read_expr_bp, read_for_expr, read_guard, read_head,
    read_if_expr, read_init, read_inner, read_match_expr, read_operand, read_operators,
    read_postfix, read_postfixes, read_primary, read_return_expr, read_struct_lit, read_unary,
    read_until, read_while_expr, read_within, starts_postfix, tok_at, tok_is, tokens_left,
};
use crate::parser::{
    ParseError, Parser, infix_binding_power, infix_expr, seen_arm, seen_arms, seen_expr,
    seen_exprs, seen_init, seen_inits, seen_opt_expr,
};
use crate::token::{Span, TokenKind, TokenKindV};
use crate::tree::{
    arm_tree, arm_trees, expr_tree, expr_tree_span, expr_trees, if_expr, init_tree, init_trees,
    path_tree, pattern_tree_span, return_expr, type_tree_span,
};

verus! {

impl Parser {
    pub(crate) fn parse_exprs_until(&mut self, close: &TokenKind, depth: usize) -> (r: Result<Vec<Expr>, ParseError>)
        requires
            old(self).wf(),
            close@ == TokenKindV::Plain(*close),
        ensures
            final(self).wf(),
            (final(self)@, seen_exprs(r)) == read_until(old(self)@, Part::Arg, *close, depth as nat, seq![]),
            tokens_left(final(self)@) <= tokens_left(old(self)@),
        decreases depth,
    {
        if depth == 0 {
            return Err(self.too_deep());
        }
        let ghost start = self@;
        let mut out: Vec<Expr> = Vec::new();
        assert(expr_trees(out@) =~= seq![]);
        while !self.check(close) && !self.is_eof()
            invariant
                self.wf(),
                start == old(self)@,
                depth > 0,
                close@ == TokenKindV::Plain(*close),
                read_until(start, Part::Arg, *close, depth as nat, seq![]) == read_until(
                    self@,
                    Part::Arg,
                    *close,
                    depth as nat,
                    expr_trees(out@),
                ),
                tokens_left(self@) <= tokens_left(start),
            decreases tokens_left(self@),
        {
            assert(read_element(self@, Part::Arg, (depth - 1) as nat) == read_expr(self@, (depth - 1) as nat));
            let t = self.parse_expr_at(depth - 1)?;
            assert(expr_trees(out@.push(t)) =~= expr_trees(out@).push(expr_tree(t)));
            out.push(t);
            if !self.eat(&TokenKind::Comma) {
                return Ok(out);
            }
        }
        Ok(out)
    }

    pub(crate) fn parse_inits_until(&mut self, close: &TokenKind, depth: usize) -> (r: Result<Vec<FieldInit>, ParseError>)
        requires
            old(self).wf(),
            close@ == TokenKindV::Plain(*close),
        ensures
            final(self).wf(),
            (final(self)@, seen_inits(r)) == read_until(old(self)@, Part::Init, *close, depth as nat, seq![]),
            tokens_left(final(self)@) <= tokens_left(old(self)@),
        decreases depth,
    {
        if depth == 0 {
            return Err(self.too_deep());
        }
        let ghost start = self@;
        let mut out: Vec<FieldInit> = Vec::new();
        assert(init_trees(out@) =~= seq![]);
        while !self.check(close) && !self.is_eof()
            invariant
                self.wf(),
                start == old(self)@,
                depth > 0,
                close@ == TokenKindV::Plain(*close),
                read_until(start, Part::Init, *close, depth as nat, seq![]) == read_until(
                    self@,
                    Part::Init,
                    *close,
                    depth as nat,
                    init_trees(out@),
                ),
                tokens_left(self@) <= tokens_left(start),
            decreases tokens_left(self@),
        {
            assert(read_element(self@, Part::Init, (depth - 1) as nat) == read_init(self@, (depth - 1) as nat));
            let t = self.parse_init(depth - 1)?;
            assert(init_trees(out@.push(t)) =~= init_trees(out@).push(init_tree(t)));
            out.push(t);
            if !self.eat(&TokenKind::Comma) {
                return Ok(out);
            }
        }
        Ok(out)
    }

    pub(crate) fn parse_arms(&mut self, depth: usize) -> (r: Result<Vec<MatchArm>, ParseError>)
        requires
            old(self).wf(),
        ensures
            final(self).wf(),
            (final(self)@, seen_arms(r)) == read_within(old(self)@, Part::Arm, depth as nat, seq![]),
            tokens_left(final(self)@) <= tokens_left(old(self)@),
        decreases depth,
    {
        if depth == 0 {
            return Err(self.too_deep());
        }
        let ghost start = self@;
        let mut out: Vec<MatchArm> = Vec::new();
        assert(arm_trees(out@) =~= seq![]);
        while !self.check(&TokenKind::RBrace) && !self.is_eof()
            invariant
                self.wf(),
                start == old(self)@,
                depth > 0,
                read_within(start, Part::Arm, depth as nat, seq![]) == read_within(
                    self@,
                    Part::Arm,
                    depth as nat,
                    arm_trees(out@),
                ),
                tokens_left(self@) <= tokens_left(start),
            decreases tokens_left(self@),
        {
            assert(read_element(self@, Part::Arm, (depth - 1) as nat) == read_arm(self@, (depth - 1) as nat));
            let t = self.parse_match_arm(depth - 1)?;
            assert(arm_trees(out@.push(t)) =~= arm_trees(out@).push(arm_tree(t)));
            out.push(t);
        }
        Ok(out)
    }

    /// One expression from the next token on.
    pub fn parse_expr(&mut self) -> (r: Result<Expr, ParseError>)
        requires
            old(self).wf(),
        ensures
            final(self).wf(),
            (final(self)@, seen_expr(r)) == read_expr(old(self)@, NESTING_LIMIT as nat),
    {
        self.parse_expr_at(NESTING_LIMIT)
    }

    pub(crate) fn parse_expr_at(&mut self, depth: usize) -> (r: Result<Expr, ParseError>)
        requires
            old(self).wf(),
        ensures
            final(self).wf(),
            (final(self)@, seen_expr(r)) == read_expr(old(self)@, depth as nat),
            tokens_left(final(self)@) <= tokens_left(old(self)@),
            r is Ok ==> tokens_left(final(self)@) < tokens_left(old(self)@),
        decreases depth,
    {
        if depth == 0 {
            return Err(self.too_deep());
        }
        self.parse_expr_bp(0, depth - 1)
    }

    /// An expression of operators that bind at least as tightly as `min_bp`.
    pub(crate) fn parse_expr_bp(&mut self, min_bp: u8, depth: usize) -> (r: Result<Expr, ParseError>)
        requires
            old(self).wf(),
        ensures
            final(self).wf(),
            (final(self)@, seen_expr(r)) == read_expr_bp(old(self)@, min_bp, depth as nat),
            tokens_left(final(self)@) <= tokens_left(old(self)@),
            r is Ok ==> tokens_left(final(self)@) < tokens_left(old(self)@),
        decreases depth,
    {
        if depth == 0 {
            return Err(self.too_deep());
        }
        let lhs = self.parse_unary(depth - 1)?;
        self.parse_operators(lhs, min_bp, depth - 1)
    }

    /// What follows a left operand.
    #[verifier::spinoff_prover]
    pub(crate) fn parse_operators(&mut self, lhs: Expr, min_bp: u8, depth: usize) -> (r: Result<Expr, ParseError>)
        requires
            old(self).wf(),
        ensures
            final(self).wf(),
            (final(self)@, seen_expr(r)) == read_operators(old(self)@, expr_tree(lhs), min_bp, depth as nat),
            tokens_left(final(self)@) <= tokens_left(old(self)@),
        decreases depth,
    {
        if depth == 0 {
            return Err(self.too_deep());
        }
        let ghost start = self@;
        let ghost first = expr_tree(lhs);
        let mut e = lhs;
        loop
            invariant
                self.wf(),
                start == old(self)@,
                first == expr_tree(lhs),
                depth > 0,
                read_operators(start, first, min_bp, depth as nat) == read_operators(
                    self@,
                    expr_tree(e),
                    min_bp,
                    depth as nat,
                ),
                tokens_left(self@) <= tokens_left(start),
            decreases tokens_left(self@),
        {
            if self.is_postfix_op() {
                e = self.parse_postfix(e, depth - 1)?;
            } else {
                let op = match infix_binding_power(self.peek()) {
                    Some(op) => op,
                    None => {
                        return Ok(e);
                    },
                };
                if op.left < min_bp {
                    return Ok(e);
                }
                self.bump();
                e = self.parse_operation(op, e, depth - 1)?;
            }
        }
    }

    /// The right operand of an operator, put together with the left one.
    pub(crate) fn parse_operation(&mut self, op: InfixOp, lhs: Expr, depth: usize) -> (r: Result<Expr, ParseError>)
        requires
            old(self).wf(),
        ensures
            final(self).wf(),
            final(self)@ == read_operand(old(self)@, op, depth as nat).0,
            match read_operand(old(self)@, op, depth as nat).1 {
                Ok(rhs) => r is Ok && expr_tree(r->Ok_0) == applied_infix(op.kind, expr_tree(lhs), rhs),
                Err(f) => r is Err && r->Err_0.fail() == f,
            },
            tokens_left(final(self)@) <= tokens_left(old(self)@),
        decreases depth,
    {
        proof {
            expr_tree_span(lhs);
        }
        if depth == 0 {
            return Err(self.too_deep());
        }
        let start = lhs.span().start;
        if let InfixKind::Cast = op.kind {
            let ty = self.parse_type(depth - 1)?;
            proof {
                type_tree_span(ty);
            }
            let span = Span::new(start, ty.span().end);
            return Ok(Expr::Cast { expr: Box::new(lhs), ty, span });
        }
        let rhs = self.parse_expr_bp(op.right, depth - 1)?;
        proof {
            expr_tree_span(rhs);
        }
        let span = Span::new(start, rhs.span().end);
        Ok(infix_expr(op.kind, lhs, rhs, span))
    }

    /// Postfixes bind tighter than a prefix operator: `!f(x)` negates the
    /// call's result.
    pub(crate) fn parse_unary(&mut self, depth: usize) -> (r: Result<Expr, ParseError>)
        requires
            old(self).wf(),
        ensures
            final(self).wf(),
            (final(self)@, seen_expr(r)) == read_unary(old(self)@, depth as nat),
            tokens_left(final(self)@) <= tokens_left(old(self)@),
            r is Ok ==> tokens_left(final(self)@) < tokens_left(old(self)@),
        decreases depth,
    {
        if depth == 0 {
            return Err(self.too_deep());
        }
        let start = self.peek_span();
        let op = match self.peek() {
            TokenKind::Minus => UnOp::Neg,
            TokenKind::Bang => UnOp::Not,
            TokenKind::Tilde => UnOp::BitNot,
            _ => {
                return self.parse_primary(depth - 1);
            },
        };
        self.bump();
        let inner = self.parse_unary(depth - 1)?;
        let inner = self.parse_postfix_chain(inner, depth - 1)?;
        proof {
            expr_tree_span(inner);
        }
        let span = Span::new(start.start, inner.span().end);
        Ok(Expr::Unary { op, expr: Box::new(inner), span })
    }

    pub(crate) fn parse_postfix_chain(&mut self, lhs: Expr, depth: usize) -> (r: Result<Expr, ParseError>)
        requires
            old(self).wf(),
        ensures
            final(self).wf(),
            (final(self)@, seen_expr(r)) == read_postfixes(old(self)@, expr_tree(lhs), depth as nat),
            tokens_left(final(self)@) <= tokens_left(old(self)@),
        decreases depth,
    {
        if depth == 0 {
            return Err(self.too_deep());
        }
        let ghost start = self@;
        let ghost first = expr_tree(lhs);
        let mut e = lhs;
        while self.is_postfix_op()
            invariant
                self.wf(),
                start == old(self)@,
                first == expr_tree(lhs),
                depth > 0,
                read_postfixes(start, first, depth as nat) == read_postfixes(self@, expr_tree(e), depth as nat),
                tokens_left(self@) <= tokens_left(start),
            decreases tokens_left(self@),
        {
            e = self.parse_postfix(e, depth - 1)?;
        }
        Ok(e)
    }

    pub(crate) fn is_postfix_op(&self) -> (r: bool)
        requires
            self.wf(),
        ensures
            r == starts_postfix(tok_at(self@).kind),
    {
        match self.peek() {
            TokenKind::LParen => true,
            TokenKind::LBracket => true,
            TokenKind::Dot => true,
            TokenKind::Question => true,
            _ => false,
        }
    }

    /// Expressions up to a closing bracket; blocks are allowed in them.
    pub(crate) fn parse_args(&mut self, close: &TokenKind, depth: usize) -> (r: Result<Vec<Expr>, ParseError>)
        requires
            old(self).wf(),
            close@ == TokenKindV::Plain(*close),
        ensures
            final(self).wf(),
            (final(self)@, seen_exprs(r)) == read_args(old(self)@, *close, depth as nat),
            tokens_left(final(self)@) <= tokens_left(old(self)@),
        decreases depth,
    {
        if depth == 0 {
            return Err(self.too_deep());
        }
        let saved = self.blocks_barred();
        let structs = self.struct_literals_barred();
        self.bar(false, structs);
        let args = self.parse_exprs_until(close, depth - 1)?;
        let structs = self.struct_literals_barred();
        self.bar(saved, structs);
        Ok(args)
    }

    pub(crate) fn parse_inner(&mut self, depth: usize) -> (r: Result<Expr, ParseError>)
        requires
            old(self).wf(),
        ensures
            final(self).wf(),
            (final(self)@, seen_expr(r)) == read_inner(old(self)@, depth as nat),
            tokens_left(final(self)@) <= tokens_left(old(self)@),
            r is Ok ==> tokens_left(final(self)@) < tokens_left(old(self)@),
        decreases depth,
    {
        if depth == 0 {
            return Err(self.too_deep());
        }
        let saved = self.blocks_barred();
        let structs = self.struct_literals_barred();
        self.bar(false, structs);
        let e = self.parse_expr_at(depth - 1)?;
        let structs = self.struct_literals_barred();
        self.bar(saved, structs);
        Ok(e)
    }

    #[verifier::spinoff_prover]
    pub(crate) fn parse_postfix(&mut self, lhs: Expr, depth: usize) -> (r: Result<Expr, ParseError>)
        requires
            old(self).wf(),
            starts_postfix(tok_at(old(self)@).kind),
        ensures
            final(self).wf(),
            (final(self)@, seen_expr(r)) == read_postfix(old(self)@, expr_tree(lhs), depth as nat),
            tokens_left(final(self)@) <= tokens_left(old(self)@),
            r is Ok ==> tokens_left(final(self)@) < tokens_left(old(self)@),
        decreases depth,
    {
        if depth == 0 {
            return Err(self.too_deep());
        }
        proof {
            expr_tree_span(lhs);
        }
        let start = lhs.span().start;
        if self.eat(&TokenKind::LParen) {
            let args = self.parse_args(&TokenKind::RParen, depth - 1)?;
            let close = self.expect(&TokenKind::RParen, "`)`")?;
            let span = Span::new(start, close.end);
            return Ok(Expr::Call { callee: Box::new(lhs), args, span });
        }
        if self.eat(&TokenKind::LBracket) {
            let index = self.parse_inner(depth - 1)?;
            let close = self.expect(&TokenKind::RBracket, "`]`")?;
            let span = Span::new(start, close.end);
            return Ok(Expr::Index { receiver: Box::new(lhs), index: Box::new(index), span });
        }
        if self.eat(&TokenKind::Dot) {
            let name = self.expect_ident()?;
            if self.eat(&TokenKind::LParen) {
                let args = self.parse_args(&TokenKind::RParen, depth - 1)?;
                let close = self.expect(&TokenKind::RParen, "`)`")?;
                let span = Span::new(start, close.end);
                return Ok(Expr::MethodCall { receiver: Box::new(lhs), method: name, args, span });
            }
            let span = Span::new(start, name.span.end);
            return Ok(Expr::Field { receiver: Box::new(lhs), name, span });
        }
        let close = self.bump();
        let span = Span::new(start, close.end);
        Ok(Expr::Try { expr: Box::new(lhs), span })
    }

    #[verifier::spinoff_prover]
    pub(crate) fn parse_primary(&mut self, depth: usize) -> (r: Result<Expr, ParseError>)
        requires
            old(self).wf(),
        ensures
            final(self).wf(),
            (final(self)@, seen_expr(r)) == read_primary(old(self)@, depth as nat),
            tokens_left(final(self)@) <= tokens_left(old(self)@),
            r is Ok ==> tokens_left(final(self)@) < tokens_left(old(self)@),
        decreases depth,
    {
        if depth == 0 {
            return Err(self.too_deep());
        }
        let span = self.peek_span();
        if self.at_literal() {
            let (lit, span) = self.parse_literal()?;
            return Ok(Expr::Lit { lit, span });
        }
        match self.peek() {
            TokenKind::Ident(_) => {
                let path = self.parse_path(depth - 1)?;
                if !self.struct_literals_barred() && self.check(&TokenKind::LBrace) {
                    return self.parse_struct_lit(path, depth - 1);
                }
                Ok(Expr::Path(path))
            },
            TokenKind::LParen => {
                self.bump();
                let e = self.parse_inner(depth - 1)?;
                self.expect(&TokenKind::RParen, "`)`")?;
                Ok(e)
            },
            TokenKind::LBracket => {
                self.bump();
                let elems = self.parse_args(&TokenKind::RBracket, depth - 1)?;
                let close = self.expect(&TokenKind::RBracket, "`]`")?;
                Ok(Expr::Array { elems, span: Span::new(span.start, close.end) })
            },
            TokenKind::LBrace => {
                if self.blocks_barred() {
                    return Err(self.expected("expression"));
                }
                Ok(Expr::Block(self.parse_block(depth - 1)?))
            },
            TokenKind::If => self.parse_if(depth - 1),
            TokenKind::While => self.parse_while(depth - 1),
            TokenKind::For => self.parse_for(depth - 1),
            TokenKind::Match => self.parse_match(depth - 1),
            TokenKind::Return => self.parse_return(depth - 1),
            TokenKind::Break => {
                self.bump();
                Ok(Expr::Break(span))
            },
            TokenKind::Continue => {
                self.bump();
                Ok(Expr::Continue(span))
            },
            _ => Err(self.expected("expression")),
        }
    }

    pub(crate) fn parse_return(&mut self, depth: usize) -> (r: Result<Expr, ParseError>)
        requires
            old(self).wf(),
            tok_is(old(self)@, TokenKind::Return),
        ensures
            final(self).wf(),
            (final(self)@, seen_expr(r)) == read_return_expr(old(self)@, depth as nat),
            tokens_left(final(self)@) <= tokens_left(old(self)@),
            r is Ok ==> tokens_left(final(self)@) < tokens_left(old(self)@),
        decreases depth,
    {
        if depth == 0 {
            return Err(self.too_deep());
        }
        let span = self.bump();
        if self.check(&TokenKind::Semi) || self.check(&TokenKind::RBrace) || self.check(&TokenKind::Comma)
            || self.is_eof() {
            return Ok(return_expr(None, span));
        }
        let e = self.parse_expr_at(depth - 1)?;
        proof {
            expr_tree_span(e);
        }
        let full = Span::new(span.start, e.span().end);
        Ok(return_expr(Some(e), full))
    }

    pub(crate) fn parse_struct_lit(&mut self, path: Path, depth: usize) -> (r: Result<Expr, ParseError>)
        requires
            old(self).wf(),
        ensures
            final(self).wf(),
            (final(self)@, seen_expr(r)) == read_struct_lit(old(self)@, path_tree(path), depth as nat),
            tokens_left(final(self)@) <= tokens_left(old(self)@),
            r is Ok ==> tokens_left(final(self)@) < tokens_left(old(self)@),
        decreases depth,
    {
        if depth == 0 {
            return Err(self.too_deep());
        }
        self.expect(&TokenKind::LBrace, "`{`")?;
        let saved_block = self.blocks_barred();
        let saved_struct = self.struct_literals_barred();
        self.bar(false, false);
        let fields = self.parse_inits_until(&TokenKind::RBrace, depth - 1)?;
        self.bar(saved_block, saved_struct);
        let close = self.expect(&TokenKind::RBrace, "`}`")?;
        let span = Span::new(path.span.start, close.end);
        Ok(Expr::StructLit { path, fields, span })
    }

    /// `name: value` in a struct literal.
    pub(crate) fn parse_init(&mut self, depth: usize) -> (r: Result<FieldInit, ParseError>)
        requires
            old(self).wf(),
        ensures
            final(self).wf(),
            (final(self)@, seen_init(r)) == read_init(old(self)@, depth as nat),
            tokens_left(final(self)@) <= tokens_left(old(self)@),
            r is Ok ==> tokens_left(final(self)@) < tokens_left(old(self)@),
        decreases depth,
    {
        if depth == 0 {
            return Err(self.too_deep());
        }
        let name = self.expect_ident()?;
        self.expect(&TokenKind::Colon, "`:`")?;
        let value = self.parse_expr_at(depth - 1)?;
        Ok(FieldInit { name, value })
    }

    pub(crate) fn parse_if(&mut self, depth: usize) -> (r: Result<Expr, ParseError>)
        requires
            old(self).wf(),
        ensures
            final(self).wf(),
            (final(self)@, seen_expr(r)) == read_if_expr(old(self)@, depth as nat),
            tokens_left(final(self)@) <= tokens_left(old(self)@),
            r is Ok ==> tokens_left(final(self)@) < tokens_left(old(self)@),
        decreases depth,
    {
        if depth == 0 {
            return Err(self.too_deep());
        }
        let open = self.expect(&TokenKind::If, "`if`")?;
        let cond = self.parse_cond_expr(depth - 1)?;
        let then_branch = self.parse_block(depth - 1)?;
        if self.eat(&TokenKind::Else) {
            let e = self.parse_else(depth - 1)?;
            proof {
                expr_tree_span(e);
            }
            let span = Span::new(open.start, e.span().end);
            return Ok(if_expr(cond, then_branch, Some(e), span));
        }
        let span = Span::new(open.start, then_branch.span.end);
        Ok(if_expr(cond, then_branch, None, span))
    }

    pub(crate) fn parse_else(&mut self, depth: usize) -> (r: Result<Expr, ParseError>)
        requires
            old(self).wf(),
        ensures
            final(self).wf(),
            (final(self)@, seen_expr(r)) == read_else_branch(old(self)@, depth as nat),
            tokens_left(final(self)@) <= tokens_left(old(self)@),
            r is Ok ==> tokens_left(final(self)@) < tokens_left(old(self)@),
        decreases depth,
    {
        if depth == 0 {
            return Err(self.too_deep());
        }
        if self.check(&TokenKind::If) {
            return self.parse_if(depth - 1);
        }
        Ok(Expr::Block(self.parse_block(depth - 1)?))
    }

    pub(crate) fn parse_while(&mut self, depth: usize) -> (r: Result<Expr, ParseError>)
        requires
            old(self).wf(),
        ensures
            final(self).wf(),
            (final(self)@, seen_expr(r)) == read_while_expr(old(self)@, depth as nat),
            tokens_left(final(self)@) <= tokens_left(old(self)@),
            r is Ok ==> tokens_left(final(self)@) < tokens_left(old(self)@),
        decreases depth,
    {
        if depth == 0 {
            return Err(self.too_deep());
        }
        let open = self.expect(&TokenKind::While, "`while`")?;
        let cond = self.parse_cond_expr(depth - 1)?;
        let body = self.parse_block(depth - 1)?;
        let span = Span::new(open.start, body.span.end);
        Ok(Expr::While { cond: Box::new(cond), body, span })
    }

    pub(crate) fn parse_for(&mut self, depth: usize) -> (r: Result<Expr, ParseError>)
        requires
            old(self).wf(),
        ensures
            final(self).wf(),
            (final(self)@, seen_expr(r)) == read_for_expr(old(self)@, depth as nat),
            tokens_left(final(self)@) <= tokens_left(old(self)@),
            r is Ok ==> tokens_left(final(self)@) < tokens_left(old(self)@),
        decreases depth,
    {
        if depth == 0 {
            return Err(self.too_deep());
        }
        let open = self.expect(&TokenKind::For, "`for`")?;
        let pat = self.parse_pattern(depth - 1)?;
        self.expect(&TokenKind::In, "`in`")?;
        let iter = self.parse_cond_expr(depth - 1)?;
        let body = self.parse_block(depth - 1)?;
        let span = Span::new(open.start, body.span.end);
        Ok(Expr::For { pat, iter: Box::new(iter), body, span })
    }

    pub(crate) fn parse_match(&mut self, depth: usize) -> (r: Result<Expr, ParseError>)
        requires
            old(self).wf(),
        ensures
            final(self).wf(),
            (final(self)@, seen_expr(r)) == read_match_expr(old(self)@, depth as nat),
            tokens_left(final(self)@) <= tokens_left(old(self)@),
            r is Ok ==> tokens_left(final(self)@) < tokens_left(old(self)@),
        decreases depth,
    {
        if depth == 0 {
            return Err(self.too_deep());
        }
        let open = self.expect(&TokenKind::Match, "`match`")?;
        let scrutinee = self.parse_cond_expr(depth - 1)?;
        self.expect(&TokenKind::LBrace, "`{`")?;
        let arms = self.parse_arms(depth - 1)?;
        let close = self.expect(&TokenKind::RBrace, "`}`")?;
        let span = Span::new(open.start, close.end);
        Ok(Expr::Match { scrutinee: Box::new(scrutinee), arms, span })
    }

    pub(crate) fn parse_match_arm(&mut self, depth: usize) -> (r: Result<MatchArm, ParseError>)
        requires
            old(self).wf(),
        ensures
            final(self).wf(),
            (final(self)@, seen_arm(r)) == read_arm(old(self)@, depth as nat),
            tokens_left(final(self)@) <= tokens_left(old(self)@),
            r is Ok ==> tokens_left(final(self)@) < tokens_left(old(self)@),
        decreases depth,
    {
        if depth == 0 {
            return Err(self.too_deep());
        }
        let pat = self.parse_pattern(depth - 1)?;
        proof {
            pattern_tree_span(pat);
        }
        let start = pat.span().start;
        let guard = self.parse_guard(depth - 1)?;
        self.expect(&TokenKind::FatArrow, "`=>`")?;
        let body = self.parse_expr_at(depth - 1)?;
        proof {
            expr_tree_span(body);
        }
        let span = Span::new(start, body.span().end);
        self.eat(&TokenKind::Comma);
        Ok(MatchArm { pat, guard, body, span })
    }

    pub(crate) fn parse_guard(&mut self, depth: usize) -> (r: Result<Option<Expr>, ParseError>)
        requires
            old(self).wf(),
        ensures
            final(self).wf(),
            (final(self)@, seen_opt_expr(r)) == read_guard(old(self)@, depth as nat),
            tokens_left(final(self)@) <= tokens_left(old(self)@),
        decreases depth,
    {
        if depth == 0 {
            return Err(self.too_deep());
        }
        if self.eat(&TokenKind::If) {
            Ok(Some(self.parse_cond_expr(depth - 1)?))
        } else {
            Ok(None)
        }
    }

    /// A condition or scrutinee: a brace after it opens the body.
    pub(crate) fn parse_cond_expr(&mut self, depth: usize) -> (r: Result<Expr, ParseError>)
        requires
            old(self).wf(),
        ensures
            final(self).wf(),
            (final(self)@, seen_expr(r)) == read_head(old(self)@, depth as nat),
            tokens_left(final(self)@) <= tokens_left(old(self)@),
            r is Ok ==> tokens_left(final(self)@) < tokens_left(old(self)@),
        decreases depth,
    {
        if depth == 0 {
            return Err(self.too_deep());
        }
        let saved_block = self.blocks_barred();
        let saved_struct = self.struct_literals_barred();
        self.bar(true, true);
        let e = self.parse_expr_at(depth - 1);
        self.bar(saved_block, saved_struct);
        e
    }
}

} // verus!
